//! The transfer behaviour's queues: files waiting to be offered to their
//! peers and events waiting to be handed to the swarm.

use vstd::prelude::*;
use crate::file::{FileToSend, Payload};

verus! {

/// Seconds before an outbound transfer substream times out.
pub const TIMEOUT: u64 = 600;

/// A transfer as the protocol describes it on the wire.
#[derive(Clone, Debug)]
pub struct TransferPayload {
    pub name: String,
    pub hash: String,
    pub payload: Payload,
    pub size_bytes: u64,
    pub target_path: Option<String>,
}

/// A transfer received from a peer, reported to the swarm.
#[derive(Debug)]
pub struct TransferEvent(pub TransferPayload);

/// What a connection handler reports about a transfer.
#[derive(Debug)]
pub enum ProtocolEvent {
    Received(TransferPayload),
    Sent,
}

/// What the behaviour asks the swarm to do next.
#[derive(Debug)]
pub enum BehaviourAction {
    /// Report a received transfer to the swarm's owner.
    GenerateEvent(TransferEvent),
    /// Hand `file` to a connection handler for `peer_id` (any of its
    /// connections).
    NotifyHandler { peer_id: String, file: FileToSend },
}

/// Settings of the one-shot connection handler of each connection.
pub struct HandlerSettings {
    pub keep_alive_secs: u64,
    pub outbound_substream_timeout_secs: u64,
    pub max_dial_negotiated: u32,
    pub substream_timeout_secs: u64,
    /// The payload the inbound protocol starts from.
    pub template: TransferPayload,
}

/// The state of a transfer behaviour: its two queues and where received
/// files are stored.
pub ghost struct Queues {
    pub payloads: Seq<FileToSend>,
    pub events: Seq<BehaviourAction>,
    pub target_path: Option<String>,
}

/// The action that offers `f` to its peer.
pub open spec fn notify_for(f: FileToSend) -> BehaviourAction {
    BehaviourAction::NotifyHandler { peer_id: f.peer, file: f }
}

/// `q` after queueing `f`.
pub open spec fn push_step(q: Queues, f: FileToSend) -> Queues {
    Queues { payloads: q.payloads.push(f), ..q }
}

/// `q` after a handler reported `ev`: a received transfer is queued as an
/// event for the swarm; a completed send changes nothing.
pub open spec fn inject_step(q: Queues, ev: ProtocolEvent) -> Queues {
    match ev {
        ProtocolEvent::Received(data) => Queues {
            events: q.events.push(BehaviourAction::GenerateEvent(TransferEvent(data))),
            ..q
        },
        ProtocolEvent::Sent => q,
    }
}

/// One poll of `q`: the most recently queued file is offered to its peer
/// while any is queued; otherwise the most recent event is handed out;
/// with both queues empty there is nothing to do.
pub open spec fn poll_step(q: Queues) -> (Option<BehaviourAction>, Queues) {
    if q.payloads.len() > 0 {
        (
            Some(notify_for(q.payloads.last())),
            Queues { payloads: q.payloads.drop_last(), ..q },
        )
    } else if q.events.len() > 0 {
        (Some(q.events.last()), Queues { events: q.events.drop_last(), ..q })
    } else {
        (None, q)
    }
}

/// The number of items waiting in `q`.
pub open spec fn queued(q: Queues) -> nat {
    q.payloads.len() + q.events.len()
}

/// Polling right after queueing a file offers that file to its peer and
/// leaves the behaviour as it was before the file was queued.
pub proof fn law_poll_undoes_push(q: Queues, f: FileToSend)
    ensures
        poll_step(push_step(q, f)) == (Some(notify_for(f)), q),
{
    assert(push_step(q, f).payloads.drop_last() =~= q.payloads);
}

/// While any file is queued, a poll offers the most recently queued file,
/// unchanged, to that file's own peer.
pub proof fn law_poll_offers_queued_file(q: Queues)
    requires
        q.payloads.len() > 0,
    ensures
        poll_step(q).0 == Some(
            BehaviourAction::NotifyHandler {
                peer_id: q.payloads[q.payloads.len() - 1].peer,
                file: q.payloads[q.payloads.len() - 1],
            },
        ),
{
}

/// While any file is queued, a poll offers a queued file (the most recent
/// one) and leaves the event queue alone; received transfers wait until no
/// file is queued.
pub proof fn law_files_before_events(q: Queues)
    requires
        q.payloads.len() > 0,
    ensures
        poll_step(q).0 == Some(notify_for(q.payloads.last())),
        poll_step(q).1.events == q.events,
{
}

/// A poll hands out exactly one queued item when there is any, and
/// reports nothing (changing nothing) when both queues are empty; what it
/// hands out is either an offer of a queued file to that file's peer or a
/// queued event.
pub proof fn law_poll_takes_one(q: Queues)
    ensures
        poll_step(q).0 is None <==> queued(q) == 0,
        poll_step(q).0 is None ==> poll_step(q).1 == q,
        poll_step(q).0 is Some ==> queued(poll_step(q).1) + 1 == queued(q),
        poll_step(q).0 matches Some(a) ==> (exists|i: int|
            0 <= i < q.payloads.len() && a == notify_for(#[trigger] q.payloads[i]))
            || q.events.contains(a),
        poll_step(q).1.target_path == q.target_path,
{
    if q.payloads.len() > 0 {
        assert(q.payloads[q.payloads.len() - 1] == q.payloads.last());
    } else if q.events.len() > 0 {
        assert(q.events[q.events.len() - 1] == q.events.last());
    }
}

/// What `n` successive polls of `q` hand out, in order, and the state they
/// leave.
pub open spec fn poll_times(q: Queues, n: nat) -> (Seq<Option<BehaviourAction>>, Queues)
    decreases n,
{
    if n == 0 {
        (Seq::empty(), q)
    } else {
        let first = poll_step(q);
        let rest = poll_times(first.1, (n - 1) as nat);
        (seq![first.0] + rest.0, rest.1)
    }
}

/// The order in which the queued items of `q` come out: an offer of each
/// queued file to its peer, newest file first, then each queued event,
/// newest first.
pub open spec fn drain_order(q: Queues) -> Seq<BehaviourAction> {
    q.payloads.reverse().map_values(|f: FileToSend| notify_for(f)) + q.events.reverse()
}

/// Polling as many times as there are queued items hands every item out
/// exactly once, each file as an offer to that file's peer carrying it
/// (files first, newest first, then events, newest first), leaves both
/// queues empty, and the poll after that has nothing to hand out.
pub proof fn law_polls_drain_queues(q: Queues)
    ensures
        poll_times(q, queued(q)).0 == drain_order(q).map_values(|a: BehaviourAction| Some(a)),
        poll_times(q, queued(q)).1 == (Queues {
            payloads: Seq::empty(),
            events: Seq::empty(),
            target_path: q.target_path,
        }),
        poll_step(poll_times(q, queued(q)).1).0 is None,
    decreases queued(q),
{
    let n = queued(q);
    let empty = Queues { payloads: Seq::empty(), events: Seq::empty(), target_path: q.target_path };
    if n == 0 {
        assert(q.payloads =~= Seq::<FileToSend>::empty());
        assert(q.events =~= Seq::<BehaviourAction>::empty());
        assert(drain_order(q).map_values(|a: BehaviourAction| Some(a)) =~= Seq::empty());
    } else {
        let first = poll_step(q);
        let q1 = first.1;
        assert(queued(q1) == n - 1);
        law_polls_drain_queues(q1);
        let rest = poll_times(q1, (n - 1) as nat);
        assert(poll_times(q, n) == (seq![first.0] + rest.0, rest.1));
        if q.payloads.len() > 0 {
            let f = q.payloads.last();
            assert(q.payloads.reverse() =~= seq![f] + q.payloads.drop_last().reverse());
            assert(drain_order(q) =~= seq![notify_for(f)] + drain_order(q1));
        } else {
            let e = q.events.last();
            assert(q.payloads.reverse() =~= Seq::<FileToSend>::empty());
            assert(q1.payloads.reverse() =~= Seq::<FileToSend>::empty());
            assert(q.events.reverse() =~= seq![e] + q.events.drop_last().reverse());
            assert(drain_order(q) =~= seq![e] + drain_order(q1));
        }
        assert(drain_order(q).map_values(|a: BehaviourAction| Some(a)) =~= seq![first.0]
            + drain_order(q1).map_values(|a: BehaviourAction| Some(a)));
    }
}

/// A handler reporting a completed send changes nothing.
pub proof fn law_sent_is_ignored(q: Queues)
    ensures
        inject_step(q, ProtocolEvent::Sent) == q,
{
}

/// With no file queued, a transfer received from a handler is what the next
/// poll reports, after which the behaviour is as it was before.
pub proof fn law_received_is_reported(q: Queues, data: TransferPayload)
    requires
        q.payloads.len() == 0,
    ensures
        poll_step(inject_step(q, ProtocolEvent::Received(data))) == (
            Some(BehaviourAction::GenerateEvent(TransferEvent(data))),
            q,
        ),
{
    assert(inject_step(q, ProtocolEvent::Received(data)).events.drop_last() =~= q.events);
}

/// The transfer behaviour: the files queued for sending, the events waiting
/// for the swarm, and where received files are stored.
pub struct TransferBehaviour {
    events: Vec<BehaviourAction>,
    payloads: Vec<FileToSend>,
    target_path: Option<String>,
}

impl View for TransferBehaviour {
    type V = Queues;

    closed spec fn view(&self) -> Queues {
        Queues {
            payloads: self.payloads@,
            events: self.events@,
            target_path: self.target_path,
        }
    }
}

impl TransferBehaviour {
    /// An idle behaviour storing received files under `target_path`.
    pub fn new(target_path: Option<String>) -> (b: TransferBehaviour)
        ensures
            b@.payloads.len() == 0,
            b@.events.len() == 0,
            b@.target_path == target_path,
    {
        TransferBehaviour { events: Vec::new(), payloads: Vec::new(), target_path }
    }

    /// Queues `file` to be offered to its peer; this never fails.
    pub fn push_file(&mut self, file: FileToSend)
        ensures
            final(self)@ == push_step(old(self)@, file),
    {
        self.payloads.push(file);
    }

    /// Records what a connection handler reported (see `inject_step`).
    pub fn inject_event(&mut self, event: ProtocolEvent)
        ensures
            final(self)@ == inject_step(old(self)@, event),
    {
        match event {
            ProtocolEvent::Received(data) => {
                self.events.push(BehaviourAction::GenerateEvent(TransferEvent(data)));
            },
            ProtocolEvent::Sent => {},
        }
    }

    /// The next thing for the swarm to do, if any (see `poll_step`): a
    /// queued file is first moved to the event queue as an offer to its
    /// peer, then the most recent event is taken.
    pub fn poll(&mut self) -> (r: Option<BehaviourAction>)
        ensures
            (r, final(self)@) == poll_step(old(self)@),
    {
        let ghost before = self@;
        if let Some(file) = self.payloads.pop() {
            let peer_id = file.peer.clone();
            let event = BehaviourAction::NotifyHandler { peer_id, file };
            self.events.push(event);
        }
        let r = self.events.pop();
        proof {
            if before.payloads.len() > 0 {
                assert(self.events@ =~= before.events);
            }
            assert(self@ =~= poll_step(before).1);
        }
        r
    }

    /// The settings of a new connection handler: a keep-alive of 5000
    /// seconds, outbound substreams timing out after `TIMEOUT` seconds, at
    /// most 8 dials in negotiation, and an inbound template payload named
    /// `"default"` with an empty hash, the path `"."`, no bytes, and this
    /// behaviour's target path.
    pub fn new_handler(&self) -> (h: HandlerSettings)
        ensures
            h.keep_alive_secs == 5000,
            h.outbound_substream_timeout_secs == TIMEOUT,
            h.max_dial_negotiated == 8,
            h.substream_timeout_secs == TIMEOUT,
            h.template.name@ == "default"@,
            h.template.hash@ == ""@,
            h.template.payload matches Payload::Path(p) && p@ == "."@,
            h.template.size_bytes == 0,
            h.template.target_path == self@.target_path,
    {
        let template = TransferPayload {
            name: "default".to_owned(),
            hash: "".to_owned(),
            payload: Payload::Path(".".to_owned()),
            size_bytes: 0,
            target_path: self.target_path.clone(),
        };
        HandlerSettings {
            keep_alive_secs: 5000,
            outbound_substream_timeout_secs: TIMEOUT,
            max_dial_negotiated: 8,
            substream_timeout_secs: TIMEOUT,
            template,
        }
    }
}

} // verus!
