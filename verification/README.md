# dragit_wasm

The peer logic of a browser file-transfer client built on libp2p: how an
outgoing payload is named, the transfer behaviour's queues, and the
rendezvous discovery loop's decisions, written in Verus and verified.

- `src/text.rs`: character helpers and the `decimal` / `without_newlines` specs.
- `src/path.rs`: the file name of a path (`path_file_name`).
- `src/file.rs`: `TransferType`, `Payload`, `FileToSend` and their text forms.
- `src/behaviour.rs`: the transfer behaviour's queues (`poll_step`, `push_step`, `inject_step`).
- `src/discovery.rs`: known peers, the discovery state machine and server addresses.
- `app/`: the wasm-bindgen server, the rendezvous swarm and the file-system reads.

What `app/` does not do:

- It builds no WebRTC swarm: no WebRTC transport crate is available to this
  build. Peers handed over by `call_peer` are taken from their channel and
  their WebRTC address (`dial_target`) is reported to the console, but they
  are not dialled, and nothing listens on the signalling address.
- `TransferBehaviour` is not wired into a swarm: the wire format of the
  transfer protocol, its handler types and the channels that carry peer
  events and transfer commands are not part of these sources, so there is no
  `NetworkBehaviour` impl delegating to it.
