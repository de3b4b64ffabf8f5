//! File-transfer peer logic: naming of outgoing payloads, the transfer
//! behaviour's queues and the rendezvous discovery state machine.

pub mod text;
pub mod file;
pub mod path;
pub mod behaviour;
pub mod discovery;
