//! Rendezvous discovery: the peers learnt from the rendezvous server, the
//! decisions taken on each swarm event, and the addresses dialled.

use vstd::prelude::*;
use vstd::string::*;
use crate::text::{push_str_chars, string_of};

verus! {

/// The rendezvous namespace peers register and discover in.
pub const NAMESPACE: &'static str = "discovery";

/// The host of the rendezvous and signalling servers.
pub const SERVER_ADDR: &'static str = "127.0.0.1";

/// The peers learnt so far, each once, in the order first learnt; each is
/// its peer id in text form.
pub struct KnownPeers {
    ids: Vec<String>,
}

/// `known` after learning `id`: unchanged when `id` is already known,
/// otherwise with `id` added at the end.
pub open spec fn insert_peer(known: Seq<Seq<char>>, id: Seq<char>) -> Seq<Seq<char>> {
    if known.contains(id) {
        known
    } else {
        known.push(id)
    }
}

/// `known` after learning, in order, each of `ids` other than `local`.
pub open spec fn learn_all(known: Seq<Seq<char>>, ids: Seq<Seq<char>>, local: Seq<char>) -> Seq<
    Seq<char>,
>
    decreases ids.len(),
{
    if ids.len() == 0 {
        known
    } else {
        let before = learn_all(known, ids.drop_last(), local);
        if ids.last() == local {
            before
        } else {
            insert_peer(before, ids.last())
        }
    }
}

/// The words of `words` joined by single spaces.
pub open spec fn join_words(words: Seq<Seq<char>>) -> Seq<char>
    decreases words.len(),
{
    if words.len() == 0 {
        Seq::empty()
    } else if words.len() == 1 {
        words[0]
    } else {
        join_words(words.drop_last()) + seq![' '] + words.last()
    }
}

/// The texts of a list of strings.
pub open spec fn texts(v: Seq<String>) -> Seq<Seq<char>> {
    v.map_values(|s: String| s@)
}

/// The total length of `words`.
pub open spec fn total_len(words: Seq<Seq<char>>) -> nat
    decreases words.len(),
{
    if words.len() == 0 {
        0
    } else {
        total_len(words.drop_last()) + words.last().len()
    }
}

/// Joining nothing gives the empty text, and one word gives that word.
pub proof fn law_join_words_short(w: Seq<char>)
    ensures
        join_words(Seq::empty()) == Seq::<char>::empty(),
        join_words(seq![w]) == w,
{
}

/// Joining one more word after at least one adds a single space and then
/// that word.
pub proof fn law_join_words_extends(words: Seq<Seq<char>>, w: Seq<char>)
    requires
        words.len() > 0,
    ensures
        join_words(words.push(w)) == join_words(words) + seq![' '] + w,
{
    assert(words.push(w).drop_last() =~= words);
}

/// The joined text holds every word and one space between each two: its
/// length is the words' total length plus one less than their number.
pub proof fn law_join_words_len(words: Seq<Seq<char>>)
    requires
        words.len() > 0,
    ensures
        join_words(words).len() == total_len(words) + words.len() - 1,
    decreases words.len(),
{
    if words.len() > 1 {
        law_join_words_len(words.drop_last());
    } else {
        assert(words.drop_last() =~= Seq::<Seq<char>>::empty());
        assert(words.last() == words[0]);
        assert(total_len(words.drop_last()) == 0);
    }
}

impl View for KnownPeers {
    type V = Seq<Seq<char>>;

    closed spec fn view(&self) -> Seq<Seq<char>> {
        texts(self.ids@)
    }
}

impl KnownPeers {
    #[verifier::type_invariant]
    closed spec fn distinct(&self) -> bool {
        self@.no_duplicates()
    }

    /// No peer known yet.
    pub fn new() -> (k: KnownPeers)
        ensures
            k@ == Seq::<Seq<char>>::empty(),
    {
        let k = KnownPeers { ids: Vec::new() };
        assert(k@ =~= Seq::<Seq<char>>::empty());
        k
    }

    /// Whether `id` is known.
    pub fn contains(&self, id: &String) -> (b: bool)
        ensures
            b == self@.contains(id@),
    {
        let mut i: usize = 0;
        while i < self.ids.len()
            invariant
                i <= self.ids@.len(),
                forall|j: int| 0 <= j < i ==> self@[j] != id@,
            decreases self.ids@.len() - i,
        {
            if self.ids[i] == *id {
                assert(self@[i as int] == id@);
                return true;
            }
            i = i + 1;
        }
        proof {
            if self@.contains(id@) {
                let j = choose|j: int| 0 <= j < self@.len() && self@[j] == id@;
                assert(self@[j] != id@);
            }
        }
        false
    }

    /// Learns `id` (see `insert_peer`).
    pub fn insert(&mut self, id: String)
        ensures
            final(self)@ == insert_peer(old(self)@, id@),
            final(self)@.no_duplicates(),
    {
        proof {
            use_type_invariant(&*self);
        }
        if !self.contains(&id) {
            let mut ids = Vec::new();
            std::mem::swap(&mut ids, &mut self.ids);
            let ghost before = ids@;
            ids.push(id);
            proof {
                assert(texts(ids@) =~= texts(before).push(id@));
                assert(texts(ids@).no_duplicates()) by {
                    assert forall|a: int, b: int|
                        0 <= a < texts(ids@).len() && 0 <= b < texts(ids@).len() && a != b
                        implies texts(ids@)[a] != texts(ids@)[b] by {
                        if a < texts(before).len() && b < texts(before).len() {
                        } else if a < texts(before).len() {
                            assert(texts(before).contains(texts(before)[a]));
                        } else {
                            assert(texts(before).contains(texts(before)[b]));
                        }
                    }
                }
            }
            self.ids = ids;
        }
        proof {
            use_type_invariant(&*self);
        }
    }

    /// The known peers' ids, separated by single spaces.
    pub fn listing(&self) -> (s: String)
        ensures
            s@ == join_words(self@),
    {
        let mut out: Vec<char> = Vec::new();
        let mut i: usize = 0;
        while i < self.ids.len()
            invariant
                i <= self.ids@.len(),
                out@ == join_words(self@.take(i as int)),
            decreases self.ids@.len() - i,
        {
            let ghost prefix = self@.take(i as int);
            if i > 0 {
                push_str_chars(&mut out, " ");
                proof {
                    reveal_strlit(" ");
                }
            }
            push_str_chars(&mut out, self.ids[i].as_str());
            proof {
                assert(self@.take(i + 1).drop_last() =~= prefix);
                assert(self@.take(i + 1).last() == self.ids@[i as int]@);
                assert(out@ =~= join_words(self@.take(i + 1)));
            }
            i = i + 1;
        }
        proof {
            assert(self@.take(self.ids@.len() as int) =~= self@);
        }
        string_of(&out)
    }

    /// The reply to a request to call `peer_id`: `Ok("sent")` when the peer
    /// is known (and is to be handed to the dialer), `Err("")` otherwise.
    pub fn call_peer(&self, peer_id: &String) -> (reply: Result<String, String>)
        ensures
            self@.contains(peer_id@) ==> (reply matches Ok(s) && s@ == "sent"@),
            !self@.contains(peer_id@) ==> (reply matches Err(s) && s@ == ""@),
    {
        if self.contains(peer_id) {
            Ok("sent".to_owned())
        } else {
            Err("".to_owned())
        }
    }
}

/// A swarm event seen by the discovery loop; peers are given by their ids
/// in text form.
pub enum DiscoveryEvent {
    /// A listener was opened.
    NewListenAddr,
    /// A connection to `peer_id` (the rendezvous server) was established.
    ConnectionEstablished { peer_id: String },
    /// A connection was closed.
    ConnectionClosed,
    /// The rendezvous server confirmed a registration in `namespace`.
    Registered { namespace: String, rendezvous_node: String },
    /// The rendezvous server listed the peers registered in the namespace,
    /// with a cookie for the next discovery.
    Discovered { registrations: Vec<String>, cookie: Vec<u8> },
    /// A ping exchange with `peer` completed.
    Ping { peer: String },
    /// Any other event.
    Other,
}

/// What the discovery loop asks the swarm to do.
pub enum DiscoveryAction {
    Nothing,
    /// Register in `namespace` with the rendezvous server `rendezvous_node`.
    Register { namespace: String, rendezvous_node: String },
    /// Dial the rendezvous server again.
    Redial,
    /// Ask `rendezvous_node` for the peers registered in `namespace`, from
    /// `cookie` on when there is one.
    Discover { namespace: String, cookie: Option<Vec<u8>>, rendezvous_node: String },
}

/// The discovery loop's own state: which peer is local (and so never
/// learnt) and the cookie of the last discovery.
pub struct Discovery {
    pub local_peer: String,
    pub cookie: Option<Vec<u8>>,
}

/// The bytes of an optional cookie.
pub open spec fn cookie_bytes(c: Option<Vec<u8>>) -> Option<Seq<u8>> {
    match c {
        Some(v) => Some(v@),
        None => None,
    }
}

/// The action taken on `event`, given the cookie of the last discovery.
pub open spec fn action_for(
    event: DiscoveryEvent,
    cookie: Option<Seq<u8>>,
    action: DiscoveryAction,
) -> bool {
    match event {
        DiscoveryEvent::ConnectionEstablished { peer_id } => action matches DiscoveryAction::Register {
            namespace,
            rendezvous_node,
        } && namespace@ == NAMESPACE@ && rendezvous_node@ == peer_id@,
        DiscoveryEvent::ConnectionClosed => action is Redial,
        DiscoveryEvent::Registered { namespace, rendezvous_node } => action matches DiscoveryAction::Discover {
            namespace: ns,
            cookie: c,
            rendezvous_node: node,
        } && ns@ == namespace@ && c is None && node@ == rendezvous_node@,
        DiscoveryEvent::Ping { peer } => match cookie {
            Some(bytes) => action matches DiscoveryAction::Discover {
                namespace: ns,
                cookie: c,
                rendezvous_node: node,
            } && ns@ == NAMESPACE@ && cookie_bytes(c) == Some(bytes) && node@ == peer@,
            None => action is Nothing,
        },
        _ => action is Nothing,
    }
}

/// The peers known after `event`, from those known before.
pub open spec fn known_after(
    event: DiscoveryEvent,
    local: Seq<char>,
    known: Seq<Seq<char>>,
) -> Seq<Seq<char>> {
    match event {
        DiscoveryEvent::Discovered { registrations, cookie: _ } => learn_all(
            known,
            texts(registrations@),
            local,
        ),
        _ => known,
    }
}

/// The cookie kept after `event`: the one a discovery came with, or the
/// one kept before.
pub open spec fn cookie_after(event: DiscoveryEvent, cookie: Option<Seq<u8>>) -> Option<Seq<u8>> {
    match event {
        DiscoveryEvent::Discovered { registrations: _, cookie: new_cookie } => Some(new_cookie@),
        _ => cookie,
    }
}

/// Learning a list of peers keeps every known peer, adds exactly the
/// listed peers other than `local`, never adds `local`, and never makes a
/// peer known twice.
pub proof fn lemma_learn_all(known: Seq<Seq<char>>, ids: Seq<Seq<char>>, local: Seq<char>)
    ensures
        forall|p: Seq<char>| #[trigger] learn_all(known, ids, local).contains(p) <==> (known.contains(p)
            || (ids.contains(p) && p != local)),
        known.no_duplicates() ==> learn_all(known, ids, local).no_duplicates(),
    decreases ids.len(),
{
    if ids.len() > 0 {
        let init = ids.drop_last();
        lemma_learn_all(known, init, local);
        let before = learn_all(known, init, local);
        assert forall|p: Seq<char>| ids.contains(p) <==> (init.contains(p) || p == ids.last()) by {
            if ids.contains(p) {
                let j = choose|j: int| 0 <= j < ids.len() && ids[j] == p;
                if j < ids.len() - 1 {
                    assert(init[j] == p);
                }
            }
            if init.contains(p) {
                let j = choose|j: int| 0 <= j < init.len() && init[j] == p;
                assert(ids[j] == p);
            }
            if p == ids.last() {
                assert(ids[ids.len() - 1] == p);
            }
        }
        if ids.last() != local && !before.contains(ids.last()) {
            let after = before.push(ids.last());
            assert forall|p: Seq<char>| after.contains(p) <==> (before.contains(p) || p == ids.last()) by {
                if after.contains(p) {
                    let j = choose|j: int| 0 <= j < after.len() && after[j] == p;
                    if j < before.len() {
                        assert(before[j] == p);
                    }
                }
                if before.contains(p) {
                    let j = choose|j: int| 0 <= j < before.len() && before[j] == p;
                    assert(after[j] == p);
                }
                if p == ids.last() {
                    assert(after[after.len() - 1] == p);
                }
            }
            if before.no_duplicates() {
                assert forall|a: int, b: int| 0 <= a < after.len() && 0 <= b < after.len() && a != b
                    implies after[a] != after[b] by {
                    if a == before.len() {
                        assert(before.contains(before[b]));
                    } else if b == before.len() {
                        assert(before.contains(before[a]));
                    }
                }
            }
        }
    }
}

/// The local peer is never learnt: if it was not known before an event, it
/// is not known after it.
pub proof fn law_local_never_known(event: DiscoveryEvent, local: Seq<char>, known: Seq<Seq<char>>)
    requires
        !known.contains(local),
    ensures
        !known_after(event, local, known).contains(local),
{
    if let DiscoveryEvent::Discovered { registrations, cookie: _ } = event {
        lemma_learn_all(known, texts(registrations@), local);
    }
}

/// No peer is ever forgotten, and a peer becomes known only by being
/// discovered: after an event the known peers are those known before plus,
/// for a discovery, every registered peer other than the local one.
pub proof fn law_known_peers_grow(event: DiscoveryEvent, local: Seq<char>, known: Seq<Seq<char>>)
    ensures
        forall|p: Seq<char>| known.contains(p) ==> #[trigger] known_after(event, local, known).contains(p),
        event matches DiscoveryEvent::Discovered { registrations, cookie: _ } ==> forall|p: Seq<char>|
            #[trigger] known_after(event, local, known).contains(p) <==> (known.contains(p) || (texts(
                registrations@,
            ).contains(p) && p != local)),
        !(event is Discovered) ==> known_after(event, local, known) == known,
        known.no_duplicates() ==> known_after(event, local, known).no_duplicates(),
{
    if let DiscoveryEvent::Discovered { registrations, cookie: _ } = event {
        lemma_learn_all(known, texts(registrations@), local);
    }
}

/// A ping after a discovery asks the same rendezvous namespace again, from
/// the cookie that discovery came with; a ping before any discovery asks
/// nothing.
pub proof fn law_ping_discovers_from_latest_cookie(
    discovered: DiscoveryEvent,
    ping: DiscoveryEvent,
    cookie: Option<Seq<u8>>,
    action: DiscoveryAction,
)
    requires
        discovered is Discovered,
        ping is Ping,
        action_for(ping, cookie_after(discovered, cookie), action),
    ensures
        action matches DiscoveryAction::Discover { namespace, cookie: c, rendezvous_node } && namespace@
            == NAMESPACE@ && cookie_bytes(c) == Some(discovered->cookie@) && rendezvous_node@
            == ping->peer@,
{
}

/// Only a discovery changes the kept cookie.
pub proof fn law_cookie_kept(event: DiscoveryEvent, cookie: Option<Seq<u8>>)
    requires
        !(event is Discovered),
    ensures
        cookie_after(event, cookie) == cookie,
{
}

/// The peers known after handling `events` in order, from those known
/// before.
pub open spec fn known_after_all(
    events: Seq<DiscoveryEvent>,
    local: Seq<char>,
    known: Seq<Seq<char>>,
) -> Seq<Seq<char>>
    decreases events.len(),
{
    if events.len() == 0 {
        known
    } else {
        known_after_all(events.drop_first(), local, known_after(events[0], local, known))
    }
}

/// Whatever swarm events follow, the local peer never becomes known, and no
/// peer is ever known twice, starting from a list (such as the empty one of
/// `KnownPeers::new`) that does not hold the local peer.
pub proof fn law_local_never_known_after_any_events(
    events: Seq<DiscoveryEvent>,
    local: Seq<char>,
    known: Seq<Seq<char>>,
)
    requires
        !known.contains(local),
    ensures
        !known_after_all(events, local, known).contains(local),
        known.no_duplicates() ==> known_after_all(events, local, known).no_duplicates(),
    decreases events.len(),
{
    if events.len() > 0 {
        let next = known_after(events[0], local, known);
        law_local_never_known(events[0], local, known);
        law_known_peers_grow(events[0], local, known);
        law_local_never_known_after_any_events(events.drop_first(), local, next);
    }
}

impl Discovery {
    /// The state of a peer `local_peer` that has not discovered anything.
    pub fn new(local_peer: String) -> (d: Discovery)
        ensures
            d.local_peer == local_peer,
            d.cookie is None,
    {
        Discovery { local_peer, cookie: None }
    }

    /// Takes the decision for `event`: registers with a newly connected
    /// rendezvous server, redials it when a connection closes, discovers
    /// once registered, learns every discovered peer other than the local
    /// one (keeping the new cookie), and discovers again from the kept
    /// cookie after each ping.
    pub fn handle(&mut self, known: &mut KnownPeers, event: DiscoveryEvent) -> (action: DiscoveryAction)
        ensures
            action_for(event, cookie_bytes(old(self).cookie), action),
            cookie_bytes(final(self).cookie) == cookie_after(event, cookie_bytes(old(self).cookie)),
            final(self).local_peer == old(self).local_peer,
            final(known)@ == known_after(event, old(self).local_peer@, old(known)@),
    {
        match event {
            DiscoveryEvent::ConnectionEstablished { peer_id } => {
                DiscoveryAction::Register { namespace: NAMESPACE.to_owned(), rendezvous_node: peer_id }
            },
            DiscoveryEvent::ConnectionClosed => DiscoveryAction::Redial,
            DiscoveryEvent::Registered { namespace, rendezvous_node } => {
                DiscoveryAction::Discover { namespace, cookie: None, rendezvous_node }
            },
            DiscoveryEvent::Discovered { registrations, cookie } => {
                self.cookie = Some(cookie);
                self.learn(known, &registrations);
                DiscoveryAction::Nothing
            },
            DiscoveryEvent::Ping { peer } => {
                match &self.cookie {
                    Some(c) => {
                        let c2 = clone_bytes(c);
                        DiscoveryAction::Discover {
                            namespace: NAMESPACE.to_owned(),
                            cookie: Some(c2),
                            rendezvous_node: peer,
                        }
                    },
                    None => DiscoveryAction::Nothing,
                }
            },
            DiscoveryEvent::NewListenAddr => DiscoveryAction::Nothing,
            DiscoveryEvent::Other => DiscoveryAction::Nothing,
        }
    }

    /// Learns, in order, each of `ids` other than the local peer.
    fn learn(&self, known: &mut KnownPeers, ids: &Vec<String>)
        ensures
            final(known)@ == learn_all(old(known)@, texts(ids@), self.local_peer@),
    {
        let mut i: usize = 0;
        while i < ids.len()
            invariant
                i <= ids@.len(),
                known@ == learn_all(old(known)@, texts(ids@).take(i as int), self.local_peer@),
            decreases ids@.len() - i,
        {
            proof {
                assert(texts(ids@).take(i + 1).drop_last() =~= texts(ids@).take(i as int));
            }
            let id = &ids[i];
            if !(*id == self.local_peer) {
                known.insert(id.clone());
            }
            i = i + 1;
        }
        proof {
            assert(texts(ids@).take(ids@.len() as int) =~= texts(ids@));
        }
    }
}

/// A copy of `v`.
fn clone_bytes(v: &Vec<u8>) -> (out: Vec<u8>)
    ensures
        out@ == v@,
{
    let mut out: Vec<u8> = Vec::new();
    let mut i: usize = 0;
    while i < v.len()
        invariant
            i <= v@.len(),
            out@ == v@.take(i as int),
        decreases v@.len() - i,
    {
        out.push(v[i]);
        proof {
            assert(v@.take(i + 1) =~= v@.take(i as int).push(v@[i as int]));
        }
        i = i + 1;
    }
    proof {
        assert(v@.take(v@.len() as int) =~= v@);
    }
    out
}

/// The address of the rendezvous server.
pub fn rendezvous_address() -> (a: String)
    ensures
        a@ == "/ip4/"@ + SERVER_ADDR@ + "/tcp/45555/ws"@,
{
    let mut out: Vec<char> = Vec::new();
    push_str_chars(&mut out, "/ip4/");
    push_str_chars(&mut out, SERVER_ADDR);
    push_str_chars(&mut out, "/tcp/45555/ws");
    string_of(&out)
}

/// The address the WebRTC transport listens on (the signalling server).
pub fn webrtc_listen_address() -> (a: String)
    ensures
        a@ == "/ip4/"@ + SERVER_ADDR@ + "/tcp/8080/ws/p2p-webrtc-star"@,
{
    let mut out: Vec<char> = Vec::new();
    push_str_chars(&mut out, "/ip4/");
    push_str_chars(&mut out, SERVER_ADDR);
    push_str_chars(&mut out, "/tcp/8080/ws/p2p-webrtc-star");
    string_of(&out)
}

/// The WebRTC address of `peer_id`, through the signalling server.
pub fn webrtc_peer_address(peer_id: &str) -> (a: String)
    ensures
        a@ == "/ip4/"@ + SERVER_ADDR@ + "/tcp/8080/ws/p2p-webrtc-star/p2p/"@ + peer_id@,
{
    let mut out: Vec<char> = Vec::new();
    push_str_chars(&mut out, "/ip4/");
    push_str_chars(&mut out, SERVER_ADDR);
    push_str_chars(&mut out, "/tcp/8080/ws/p2p-webrtc-star/p2p/");
    push_str_chars(&mut out, peer_id);
    string_of(&out)
}

/// The address to dial for a peer handed over by a call request: its
/// WebRTC address, unless a connection to it is already open.
pub fn dial_target(peer_id: &str, connected: bool) -> (a: Option<String>)
    ensures
        connected ==> a is None,
        !connected ==> (a matches Some(s) && s@ == "/ip4/"@ + SERVER_ADDR@
            + "/tcp/8080/ws/p2p-webrtc-star/p2p/"@ + peer_id@),
{
    if connected {
        None
    } else {
        Some(webrtc_peer_address(peer_id))
    }
}

} // verus!
