//! A server of the cloud: elections, and what to do with each message.

use crate::address::{AddrView, SocketAddr};
use crate::ids::{request_id, request_id_of};
use crate::message::{Action, Msg, Type};
use crate::priority::Priority;
use crate::random::pick;
use crate::text::{comes_before, text_after};
use vstd::hash_map::StringHashMap;
use vstd::hash_set::StringHashSet;
use vstd::prelude::*;

verus! {

/// The addresses of one server: service, election, and sending back.
pub type ServerIps = (SocketAddr, SocketAddr, SocketAddr);

/// What a server knows of the elections it takes part in.
pub struct ServerStats {
    /// The requests for which this server has asked its peers.
    pub elections_initiated_by_me: StringHashSet,
    /// The requests for which a peer of higher priority has answered.
    pub elections_received_oks: StringHashSet,
    /// The requests under election, with the priority this server entered with.
    pub running_elections: StringHashMap<Priority>,
    /// The requests of clients that wait for a server.
    pub requests_buffer: StringHashMap<Msg>,
    pub peer_servers: Vec<ServerIps>,
    pub own_ips: Option<ServerIps>,
    /// Whether this server simulates a failure.
    pub down: bool,
}

/// `map` with `value` under `key`, unless something stands there already.
pub open spec fn or_insert<V>(map: Map<Seq<char>, V>, key: Seq<char>, value: V) -> Map<
    Seq<char>,
    V,
> {
    if map.contains_key(key) {
        map
    } else {
        map.insert(key, value)
    }
}

/// Whether a server with priority `own` at the address `own_addr` comes before
/// one with priority `p` at `other_addr`: by priority, and by address between
/// equal priorities.
pub open spec fn outranks(
    own: Priority,
    own_addr: Seq<char>,
    p: Priority,
    other_addr: Seq<char>,
) -> bool {
    own.exceeds_spec(p) || (own.equals_spec(p) && comes_before(other_addr, own_addr))
}

/// Whether `msgs` tells each of the peers, at its election address, the same
/// thing about the same request.
pub open spec fn tells_peers(
    msgs: Seq<Msg>,
    peers: Seq<ServerIps>,
    sender: AddrView,
    is_content: spec_fn(Type) -> bool,
    req_id: Seq<char>,
) -> bool {
    &&& msgs.len() == peers.len()
    &&& forall|i: int|
        0 <= i < msgs.len() ==> {
            &&& (#[trigger] msgs[i]).sender@ == sender
            &&& msgs[i].receiver@ == peers[i].1@
            &&& is_content(msgs[i].msg_type)
            &&& msgs[i].payload is Some
            &&& msgs[i].payload->0@ == req_id
        }
}

/// A request to vote against the priority `p`.
pub open spec fn asks_with(p: Priority) -> spec_fn(Type) -> bool {
    |t: Type| t == Type::ElectionRequest(p)
}

/// The announcement that `leader` has won.
pub open spec fn announces(leader: Seq<char>) -> spec_fn(Type) -> bool {
    |t: Type| t matches Type::CoordinatorBrdCast(l) && l@ == leader
}

/// What comes of another server's election.
#[derive(Debug, PartialEq, Eq)]
pub struct ElectionTurn {
    /// The answer to send, if one is owed.
    pub ok: Option<Msg>,
    /// Whether this server opens an election of its own, after its answer.
    pub opens: bool,
}

/// Whether `after` and `turn` are what the election of the server at `src`,
/// with priority `p`, makes of `before`, on a server that listens for elections
/// at `own` and would enter with the priority `measured`.
pub open spec fn election_turn(
    before: &ServerStats,
    p: Priority,
    req_id: Seq<char>,
    src: AddrView,
    own: AddrView,
    measured: Priority,
    after: &ServerStats,
    turn: &ElectionTurn,
) -> bool {
    let running = or_insert(before.running_elections@, req_id, measured);
    let higher = outranks(running[req_id], own.text(), p, src.text());
    &&& after.same_setting(before)
    &&& after.running_elections@ == running
    &&& after.elections_received_oks@ == before.elections_received_oks@
    &&& after.requests_buffer@ == before.requests_buffer@
    &&& after.elections_initiated_by_me@ == if higher {
        before.elections_initiated_by_me@.insert(req_id)
    } else {
        before.elections_initiated_by_me@
    }
    &&& turn.ok is Some <==> higher
    &&& turn.ok matches Some(m) ==> {
        &&& m.sender@ == own
        &&& m.receiver@ == src
        &&& m.msg_type == Type::OKMsg(running[req_id])
        &&& m.payload is Some
        &&& m.payload->0@ == req_id
    }
    &&& turn.opens == (higher && !before.elections_initiated_by_me@.contains(req_id))
}

impl ServerStats {
    /// Whether only the sets and maps of elections and requests may differ.
    pub open spec fn same_setting(&self, other: &ServerStats) -> bool {
        self.peer_servers == other.peer_servers && self.own_ips == other.own_ips && self.down
            == other.down
    }

    /// Whether nothing differs.
    pub open spec fn same(&self, other: &ServerStats) -> bool {
        &&& self.same_setting(other)
        &&& self.elections_initiated_by_me@ == other.elections_initiated_by_me@
        &&& self.elections_received_oks@ == other.elections_received_oks@
        &&& self.running_elections@ == other.running_elections@
        &&& self.requests_buffer@ == other.requests_buffer@
    }

    /// Whether nothing differs but whether the server simulates a failure.
    pub open spec fn same_but_down(&self, other: &ServerStats) -> bool {
        &&& self.peer_servers == other.peer_servers
        &&& self.own_ips == other.own_ips
        &&& self.elections_initiated_by_me@ == other.elections_initiated_by_me@
        &&& self.elections_received_oks@ == other.elections_received_oks@
        &&& self.running_elections@ == other.running_elections@
        &&& self.requests_buffer@ == other.requests_buffer@
    }

    /// Whether this is `before` with everything about one request forgotten.
    pub open spec fn forgets(&self, before: &ServerStats, req_id: Seq<char>) -> bool {
        &&& self.same_setting(before)
        &&& self.elections_initiated_by_me@ == before.elections_initiated_by_me@.remove(req_id)
        &&& self.elections_received_oks@ == before.elections_received_oks@.remove(req_id)
        &&& self.running_elections@ == before.running_elections@.remove(req_id)
        &&& self.requests_buffer@ == before.requests_buffer@.remove(req_id)
    }

    /// Whether this is `before` after the server has entered an election.
    pub open spec fn enters(
        &self,
        before: &ServerStats,
        req_id: Seq<char>,
        measured: Priority,
    ) -> bool {
        &&& self.same_setting(before)
        &&& self.elections_initiated_by_me@ == before.elections_initiated_by_me@
        &&& self.elections_received_oks@ == before.elections_received_oks@
        &&& self.running_elections@ == or_insert(before.running_elections@, req_id, measured)
        &&& self.requests_buffer@ == before.requests_buffer@
    }

    /// A server that takes part in nothing.
    pub fn new() -> (stats: ServerStats)
        ensures
            stats.elections_initiated_by_me@ == Set::<Seq<char>>::empty(),
            stats.elections_received_oks@ == Set::<Seq<char>>::empty(),
            stats.running_elections@ == Map::<Seq<char>, Priority>::empty(),
            stats.requests_buffer@ == Map::<Seq<char>, Msg>::empty(),
            stats.peer_servers@ == Seq::<ServerIps>::empty(),
            stats.own_ips is None,
            !stats.down,
    {
        ServerStats {
            elections_initiated_by_me: StringHashSet::new(),
            elections_received_oks: StringHashSet::new(),
            running_elections: StringHashMap::new(),
            requests_buffer: StringHashMap::new(),
            peer_servers: Vec::new(),
            own_ips: None,
            down: false,
        }
    }

    /// The peers of this server.
    pub fn get_peer_servers(&self) -> (peers: Vec<ServerIps>)
        ensures
            peers@ == self.peer_servers@,
    {
        let mut peers: Vec<ServerIps> = Vec::new();
        let mut i: usize = 0;
        while i < self.peer_servers.len()
            invariant
                i <= self.peer_servers@.len(),
                peers@ == self.peer_servers@.take(i as int),
            decreases self.peer_servers@.len() - i,
        {
            let peer = &self.peer_servers[i];
            peers.push((peer.0.clone(), peer.1.clone(), peer.2.clone()));
            i = i + 1;
        }
        peers
    }

    /// Notes that a peer of higher priority has taken over.
    pub fn handle_ok_msg(&mut self, req_id: String)
        ensures
            final(self).same_setting(old(self)),
            final(self).elections_initiated_by_me@ == old(self).elections_initiated_by_me@,
            final(self).elections_received_oks@ == old(self).elections_received_oks@.insert(
                req_id@,
            ),
            final(self).running_elections@ == old(self).running_elections@,
            final(self).requests_buffer@ == old(self).requests_buffer@,
    {
        let _ = self.elections_received_oks.insert(req_id);
    }

    /// Enters an election with the priority measured now, unless the server
    /// is in it already. Gives the priority it is in with.
    pub fn enter(&mut self, req_id: &str, measured: Priority) -> (own: Priority)
        ensures
            final(self).enters(old(self), req_id@, measured),
            own == final(self).running_elections@[req_id@],
    {
        let known: Option<Priority> = match self.running_elections.get(req_id) {
            Some(p) => Some(*p),
            None => None,
        };
        match known {
            Some(p) => p,
            None => {
                self.running_elections.insert(req_id.to_owned(), measured);
                measured
            },
        }
    }

    /// Hears that the server at `src_addr` stands for election with priority
    /// `p`, and enters that election too. Where this server, which listens at
    /// `own_addr`, comes before the other one, it owes an answer and takes the
    /// election over.
    pub fn handle_election(
        &mut self,
        p: Priority,
        req_id: &str,
        src_addr: &SocketAddr,
        own_addr: &SocketAddr,
        measured: Priority,
    ) -> (turn: ElectionTurn)
        ensures
            election_turn(
                old(self),
                p,
                req_id@,
                src_addr@,
                own_addr@,
                measured,
                final(self),
                &turn,
            ),
    {
        let own = self.enter(req_id, measured);
        let own_text = own_addr.text();
        let other_text = src_addr.text();
        if own.exceeds(p) || (own.equals(p) && text_after(own_text.as_str(), other_text.as_str())) {
            let ok = self.send_ok_msg(req_id, src_addr, own_addr);
            let opens = self.take_over(req_id);
            ElectionTurn { ok, opens }
        } else {
            ElectionTurn { ok: None, opens: false }
        }
    }

    /// The answer that this server's priority is higher, if it is in the
    /// election.
    pub fn send_ok_msg(
        &self,
        req_id: &str,
        src_addr: &SocketAddr,
        own_addr: &SocketAddr,
    ) -> (msg: Option<Msg>)
        ensures
            msg is Some <==> self.running_elections@.contains_key(req_id@),
            msg matches Some(m) ==> {
                &&& m.sender@ == own_addr@
                &&& m.receiver@ == src_addr@
                &&& m.msg_type == Type::OKMsg(self.running_elections@[req_id@])
                &&& m.payload is Some
                &&& m.payload->0@ == req_id@
            },
    {
        match self.running_elections.get(req_id) {
            None => None,
            Some(p) => Some(
                Msg {
                    sender: own_addr.clone(),
                    receiver: src_addr.clone(),
                    msg_type: Type::OKMsg(*p),
                    payload: Some(req_id.to_owned()),
                },
            ),
        }
    }

    /// Marks the election as this server's own. Says whether it was not so
    /// before: only then does the server ask its peers.
    pub fn take_over(&mut self, req_id: &str) -> (fresh: bool)
        ensures
            fresh == !old(self).elections_initiated_by_me@.contains(req_id@),
            final(self).same_setting(old(self)),
            final(self).elections_initiated_by_me@ == old(self).elections_initiated_by_me@.insert(
                req_id@,
            ),
            final(self).elections_received_oks@ == old(self).elections_received_oks@,
            final(self).running_elections@ == old(self).running_elections@,
            final(self).requests_buffer@ == old(self).requests_buffer@,
    {
        self.elections_initiated_by_me.insert(req_id.to_owned())
    }

    /// Whether a peer of higher priority has answered.
    pub fn check_for_oks(&self, req_id: &str) -> (answered: bool)
        ensures
            answered == self.elections_received_oks@.contains(req_id@),
    {
        self.elections_received_oks.contains(req_id)
    }

    /// Where to send this server's service address for a request, and the
    /// address as text, if the request still waits here.
    pub fn reply_to_client(&self, req_id: &str) -> (reply: Option<(SocketAddr, String)>)
        requires
            self.requests_buffer@.contains_key(req_id@) ==> self.own_ips is Some,
        ensures
            reply is Some <==> self.requests_buffer@.contains_key(req_id@),
            reply matches Some(r) ==> r.0@ == self.requests_buffer@[req_id@].sender@ && r.1@
                == (self.own_ips->0).0@.text(),
    {
        match self.requests_buffer.get(req_id) {
            None => None,
            Some(msg) => match &self.own_ips {
                None => None,
                Some(ips) => Some((msg.sender.clone(), ips.0.text())),
            },
        }
    }

    /// Forgets everything about a request: another server serves it, or this
    /// one does.
    pub fn handle_coordinator(&mut self, req_id: &str)
        ensures
            final(self).forgets(old(self), req_id@),
    {
        self.running_elections.remove(req_id);
        let _ = self.elections_received_oks.remove(req_id);
        let _ = self.elections_initiated_by_me.remove(req_id);
        self.requests_buffer.remove(req_id);
    }
}

/// The announcements of the winner to its peers.
pub fn broadcast_coordinator(
    sender: &SocketAddr,
    leader: &str,
    peer_servers: &Vec<ServerIps>,
    req_id: &str,
) -> (msgs: Vec<Msg>)
    ensures
        tells_peers(msgs@, peer_servers@, sender@, announces(leader@), req_id@),
{
    let mut msgs: Vec<Msg> = Vec::new();
    let mut i: usize = 0;
    while i < peer_servers.len()
        invariant
            i <= peer_servers@.len(),
            tells_peers(msgs@, peer_servers@.take(i as int), sender@, announces(leader@), req_id@),
        decreases peer_servers@.len() - i,
    {
        msgs.push(
            Msg {
                sender: sender.clone(),
                receiver: peer_servers[i].1.clone(),
                msg_type: Type::CoordinatorBrdCast(leader.to_owned()),
                payload: Some(req_id.to_owned()),
            },
        );
        i = i + 1;
    }
    proof {
        assert(peer_servers@.take(i as int) == peer_servers@);
    }
    msgs
}

/// The requests to vote against the priority `own`.
fn election_requests(
    sender: &SocketAddr,
    own: Priority,
    peer_servers: &Vec<ServerIps>,
    req_id: &str,
) -> (msgs: Vec<Msg>)
    ensures
        tells_peers(msgs@, peer_servers@, sender@, asks_with(own), req_id@),
{
    let mut msgs: Vec<Msg> = Vec::new();
    let mut i: usize = 0;
    while i < peer_servers.len()
        invariant
            i <= peer_servers@.len(),
            tells_peers(msgs@, peer_servers@.take(i as int), sender@, asks_with(own), req_id@),
        decreases peer_servers@.len() - i,
    {
        msgs.push(
            Msg {
                sender: sender.clone(),
                receiver: peer_servers[i].1.clone(),
                msg_type: Type::ElectionRequest(own),
                payload: Some(req_id.to_owned()),
            },
        );
        i = i + 1;
    }
    proof {
        assert(peer_servers@.take(i as int) == peer_servers@);
    }
    msgs
}

// ---------------------------------------------------------------------------
// One election, from asking the peers to serving the client
// ---------------------------------------------------------------------------

/// How far an election has come.
#[derive(Clone, Copy, Debug, PartialEq, Eq, Structural)]
pub enum ElectionPhase {
    /// Nothing has been sent.
    Opening,
    /// The peers have been asked.
    Asked,
    /// The time for answers is over.
    Deciding,
    /// The peers know that this server has won.
    Announced,
    /// The client knows it too, if its request waits here.
    Replied,
    /// There is nothing left to do.
    Over,
}

/// An election that this server conducts.
#[derive(Debug)]
pub struct Election {
    pub req_id: String,
    /// Whether the request came from a client, not from a peer's election.
    pub init_f: bool,
    /// The priority of this server, measured before the election opens.
    pub measured: Priority,
    /// The peers that were asked.
    pub peers: Vec<ServerIps>,
    pub phase: ElectionPhase,
}

/// What to do next in an election.
#[derive(Debug, PartialEq, Eq)]
pub enum ElectionAction {
    /// Send each message to its receiver.
    Send(Vec<Msg>),
    /// Wait this many milliseconds, or until a peer has answered.
    WaitForOks(u64),
    /// Send each announcement to its receiver.
    Broadcast(Vec<Msg>),
    /// Send the text to the client, if the request waits here.
    Reply(Option<(SocketAddr, String)>),
    Done,
}

/// How long a server waits for answers, in milliseconds.
pub const ANSWER_TIME: u64 = 500;

/// Whether `after`, `next` and `action` are what one step of the election `e`
/// makes of `before`, on a server that listens for elections at `own`.
pub open spec fn election_step(
    before: &ServerStats,
    e: &Election,
    own: AddrView,
    after: &ServerStats,
    next: &Election,
    action: &ElectionAction,
) -> bool {
    let id = e.req_id@;
    &&& next.req_id == e.req_id
    &&& next.init_f == e.init_f
    &&& next.measured == e.measured
    &&& match e.phase {
        ElectionPhase::Opening => if e.init_f && before.running_elections@.contains_key(id) {
            &&& after.same(before)
            &&& next.peers == e.peers
            &&& next.phase == ElectionPhase::Over
            &&& action is Done
        } else {
            &&& after.same_setting(before)
            &&& after.elections_initiated_by_me@ == before.elections_initiated_by_me@.insert(id)
            &&& after.elections_received_oks@ == before.elections_received_oks@
            &&& after.running_elections@ == or_insert(before.running_elections@, id, e.measured)
            &&& after.requests_buffer@ == before.requests_buffer@
            &&& next.peers@ == before.peer_servers@
            &&& next.phase == ElectionPhase::Asked
            &&& action matches ElectionAction::Send(msgs) && tells_peers(
                msgs@,
                before.peer_servers@,
                own,
                asks_with(after.running_elections@[id]),
                id,
            )
        },
        ElectionPhase::Asked => {
            &&& after.same(before)
            &&& next.peers == e.peers
            &&& next.phase == ElectionPhase::Deciding
            &&& action matches ElectionAction::WaitForOks(time) && time == ANSWER_TIME
        },
        ElectionPhase::Deciding => {
            &&& after.same(before)
            &&& next.peers == e.peers
            &&& if before.elections_received_oks@.contains(id) {
                next.phase == ElectionPhase::Over && action is Done
            } else {
                next.phase == ElectionPhase::Announced && (action matches ElectionAction::Broadcast(
                    msgs,
                ) && tells_peers(msgs@, e.peers@, own, announces(own.text()), id))
            }
        },
        ElectionPhase::Announced => {
            &&& after.same(before)
            &&& next.peers == e.peers
            &&& next.phase == ElectionPhase::Replied
            &&& action matches ElectionAction::Reply(reply) && {
                &&& reply is Some <==> before.requests_buffer@.contains_key(id)
                &&& reply matches Some(r) ==> r.0@ == before.requests_buffer@[id].sender@ && r.1@
                    == (before.own_ips->0).0@.text()
            }
        },
        ElectionPhase::Replied => {
            &&& after.forgets(before, id)
            &&& next.peers == e.peers
            &&& next.phase == ElectionPhase::Over
            &&& action is Done
        },
        ElectionPhase::Over => {
            &&& after.same(before)
            &&& next.peers == e.peers
            &&& next.phase == ElectionPhase::Over
            &&& action is Done
        },
    }
}

impl Election {
    /// An election that is still to open.
    pub fn new(req_id: String, init_f: bool, measured: Priority) -> (e: Election)
        ensures
            e.req_id == req_id,
            e.init_f == init_f,
            e.measured == measured,
            e.peers@ == Seq::<ServerIps>::empty(),
            e.phase == ElectionPhase::Opening,
    {
        Election { req_id, init_f, measured, peers: Vec::new(), phase: ElectionPhase::Opening }
    }
}

impl ServerStats {
    /// Takes an election one step further. The caller performs the action and
    /// comes back, until there is nothing left to do; the server may hear
    /// other messages in between.
    pub fn send_election_msg(
        &mut self,
        election: &mut Election,
        own_addr: &SocketAddr,
    ) -> (action: ElectionAction)
        requires
            old(election).phase == ElectionPhase::Announced
                && old(self).requests_buffer@.contains_key(old(election).req_id@) ==> old(
                self,
            ).own_ips is Some,
        ensures
            election_step(
                old(self),
                old(election),
                own_addr@,
                final(self),
                final(election),
                &action,
            ),
    {
        match election.phase {
            ElectionPhase::Opening => {
                if election.init_f && self.running_elections.contains_key(
                    election.req_id.as_str(),
                ) {
                    election.phase = ElectionPhase::Over;
                    return ElectionAction::Done;
                }
                let own = self.enter(election.req_id.as_str(), election.measured);
                let _ = self.take_over(election.req_id.as_str());
                election.peers = self.get_peer_servers();
                election.phase = ElectionPhase::Asked;
                ElectionAction::Send(
                    election_requests(own_addr, own, &election.peers, election.req_id.as_str()),
                )
            },
            ElectionPhase::Asked => {
                election.phase = ElectionPhase::Deciding;
                ElectionAction::WaitForOks(ANSWER_TIME)
            },
            ElectionPhase::Deciding => {
                if self.check_for_oks(election.req_id.as_str()) {
                    election.phase = ElectionPhase::Over;
                    ElectionAction::Done
                } else {
                    election.phase = ElectionPhase::Announced;
                    let leader = own_addr.text();
                    ElectionAction::Broadcast(
                        broadcast_coordinator(
                            own_addr,
                            leader.as_str(),
                            &election.peers,
                            election.req_id.as_str(),
                        ),
                    )
                }
            },
            ElectionPhase::Announced => {
                election.phase = ElectionPhase::Replied;
                ElectionAction::Reply(self.reply_to_client(election.req_id.as_str()))
            },
            ElectionPhase::Replied => {
                self.handle_coordinator(election.req_id.as_str());
                election.phase = ElectionPhase::Over;
                ElectionAction::Done
            },
            ElectionPhase::Over => ElectionAction::Done,
        }
    }
}

// ---------------------------------------------------------------------------
// Requests of clients
// ---------------------------------------------------------------------------

/// What comes of a client's request.
#[derive(Debug, PartialEq, Eq)]
pub struct ClientTurn {
    /// The name of the request.
    pub req_id: String,
    /// How long to wait before an election is opened, in milliseconds; nothing
    /// where an election is under way already.
    pub wait: Option<u64>,
}

/// The shortest and longest time before an election is opened, in
/// milliseconds; the longest is not reached.
pub const MIN_WAIT: u64 = 10;

pub const MAX_WAIT: u64 = 30;

/// Whether `after` and `turn` are what request number `id`, in the message
/// `msg`, makes of `before`.
pub open spec fn client_turn(
    before: &ServerStats,
    id: u32,
    msg: Msg,
    after: &ServerStats,
    turn: &ClientTurn,
) -> bool {
    let req_id = request_id_of(msg.sender@, id);
    &&& turn.req_id@ == req_id
    &&& after.same_setting(before)
    &&& after.elections_initiated_by_me@ == before.elections_initiated_by_me@
    &&& after.elections_received_oks@ == before.elections_received_oks@
    &&& after.running_elections@ == before.running_elections@
    &&& after.requests_buffer@ == or_insert(before.requests_buffer@, req_id, msg)
    &&& turn.wait is None <==> before.running_elections@.contains_key(req_id)
    &&& turn.wait matches Some(time) ==> MIN_WAIT <= time < MAX_WAIT
}

impl ServerStats {
    /// Keeps a client's request, unless one of that name is kept already, and
    /// says whether to wait for an election. After the wait,
    /// [`ServerStats::opens_election`] says whether to open one.
    pub fn handle_client(&mut self, id: u32, msg: Msg) -> (turn: ClientTurn)
        ensures
            client_turn(old(self), id, msg, final(self), &turn),
    {
        let req_id = request_id(&msg.sender, id);
        if !self.requests_buffer.contains_key(req_id.as_str()) {
            self.requests_buffer.insert(req_id.clone(), msg);
        }
        let wait: Option<u64> = if self.running_elections.contains_key(req_id.as_str()) {
            None
        } else {
            Some(pick(MIN_WAIT as usize, MAX_WAIT as usize) as u64)
        };
        ClientTurn { req_id, wait }
    }

    /// Whether no election for the request is under way.
    pub fn opens_election(&self, req_id: &str) -> (opens: bool)
        ensures
            opens == !self.running_elections@.contains_key(req_id@),
    {
        !self.running_elections.contains_key(req_id)
    }
}

// ---------------------------------------------------------------------------
// Messages at the election address
// ---------------------------------------------------------------------------

/// What is left to do about a message at the election address.
#[derive(Debug, PartialEq, Eq)]
pub enum ElecTask {
    /// Nothing: the message means nothing here.
    Ignore,
    /// Nothing: the message has been dealt with.
    Handled,
    /// The message names no request although it must.
    MissingPayload,
    /// A client's request has been kept.
    Client(ClientTurn),
    /// Call [`ServerStats::handle_election`].
    Election(Priority, String),
    /// Begin a [`Failure`] of so many seconds.
    Fail(u32),
    /// Answer with the directory of clients.
    ReplyDirectory,
    /// Add to the directory of clients.
    UpdateDirectory(Vec<(SocketAddr, bool)>),
    /// Answer with the pending updates.
    ReplyPending,
    /// Add to the pending updates of each client.
    UpdatePending(Vec<(SocketAddr, Vec<(String, Action)>)>),
}

/// Whether `after` and `task` are what a message at the election address makes
/// of `before`. `None` stands for bytes that are no message.
pub open spec fn elec_task(
    before: &ServerStats,
    msg: Option<Msg>,
    after: &ServerStats,
    task: &ElecTask,
) -> bool {
    match msg {
        None => after.same(before) && task is Ignore,
        Some(m) => match m.msg_type {
            Type::ClientRequest(id) => task matches ElecTask::Client(turn) && client_turn(
                before,
                id,
                m,
                after,
                &turn,
            ),
            Type::ElectionRequest(p) => after.same(before) && match m.payload {
                None => task is MissingPayload,
                Some(req_id) => task == ElecTask::Election(p, req_id),
            },
            Type::CoordinatorBrdCast(_) => match m.payload {
                None => after.same(before) && task is MissingPayload,
                Some(req_id) => after.forgets(before, req_id@) && task is Handled,
            },
            Type::OKMsg(_) => match m.payload {
                None => after.same(before) && task is MissingPayload,
                Some(req_id) => {
                    &&& task is Handled
                    &&& after.same_setting(before)
                    &&& after.elections_initiated_by_me@ == before.elections_initiated_by_me@
                    &&& after.elections_received_oks@ == before.elections_received_oks@.insert(
                        req_id@,
                    )
                    &&& after.running_elections@ == before.running_elections@
                    &&& after.requests_buffer@ == before.requests_buffer@
                },
            },
            Type::Fail(time) => after.same(before) && task == ElecTask::Fail(time),
            Type::DirOfServQuery => after.same(before) && task is ReplyDirectory,
            Type::DirOfServQueryReply(list) => after.same(before) && task
                == ElecTask::UpdateDirectory(list),
            Type::ServerDirOfServQueryPending => after.same(before) && task is ReplyPending,
            Type::ServerDirOfServQueryPendingReply(list) => after.same(before) && task
                == ElecTask::UpdatePending(list),
            _ => after.same(before) && task is Ignore,
        },
    }
}

impl ServerStats {
    /// Deals with a message at the election address as far as that needs no
    /// more than what the server knows, and says what is left to do.
    pub fn handle_elec_request(&mut self, msg: Option<Msg>) -> (task: ElecTask)
        ensures
            elec_task(old(self), msg, final(self), &task),
    {
        let msg = match msg {
            None => {
                return ElecTask::Ignore;
            },
            Some(m) => m,
        };
        if let Type::ClientRequest(id) = msg.msg_type {
            return ElecTask::Client(self.handle_client(id, msg));
        }
        match msg.msg_type {
            Type::ElectionRequest(p) => match msg.payload {
                None => ElecTask::MissingPayload,
                Some(req_id) => ElecTask::Election(p, req_id),
            },
            Type::CoordinatorBrdCast(_) => match msg.payload {
                None => ElecTask::MissingPayload,
                Some(req_id) => {
                    self.handle_coordinator(req_id.as_str());
                    ElecTask::Handled
                },
            },
            Type::OKMsg(_) => match msg.payload {
                None => ElecTask::MissingPayload,
                Some(req_id) => {
                    self.handle_ok_msg(req_id);
                    ElecTask::Handled
                },
            },
            Type::Fail(time) => ElecTask::Fail(time),
            Type::DirOfServQuery => ElecTask::ReplyDirectory,
            Type::DirOfServQueryReply(list) => ElecTask::UpdateDirectory(list),
            Type::ServerDirOfServQueryPending => ElecTask::ReplyPending,
            Type::ServerDirOfServQueryPendingReply(list) => ElecTask::UpdatePending(list),
            _ => ElecTask::Ignore,
        }
    }

    /// Whether messages at the election address are dropped: the server
    /// simulates a failure and is in no election.
    pub fn drops_elections(&self) -> (drops: bool)
        ensures
            drops == (self.down && self.running_elections@.is_empty()),
    {
        self.down && self.running_elections.is_empty()
    }
}

// ---------------------------------------------------------------------------
// Simulated failures
// ---------------------------------------------------------------------------

/// For how many seconds a server fails.
pub const FAIL_TIME: u32 = 60;

/// Whether `msg` tells one peer, at its election address, to fail.
pub open spec fn tells_to_fail(msg: &Msg, sender: AddrView, peer: ServerIps) -> bool {
    &&& msg.sender@ == sender
    &&& msg.receiver@ == peer.1@
    &&& msg.msg_type == Type::Fail(FAIL_TIME)
    &&& msg.payload is None
}

/// Whether `msg` tells one of the peers to fail.
pub open spec fn tells_one_to_fail(msg: &Msg, sender: AddrView, peers: Seq<ServerIps>) -> bool {
    exists|i: int| 0 <= i < peers.len() && tells_to_fail(msg, sender, #[trigger] peers[i])
}

/// How far a simulated failure has come.
#[derive(Clone, Copy, Debug, PartialEq, Eq, Structural)]
pub enum FailurePhase {
    /// The server has been told to fail.
    Told,
    /// The server is down.
    Down,
    /// The server is up again and has told the next one to fail.
    Awake,
    /// The peers have been asked for the directory of clients.
    DirectoryAsked,
    /// The peers have been asked for pending updates, too.
    Over,
}

/// A failure that this server simulates.
#[derive(Debug)]
pub struct Failure {
    /// How long it lasts.
    pub seconds: u32,
    pub phase: FailurePhase,
}

/// What to do next in a simulated failure.
#[derive(Debug, PartialEq, Eq)]
pub enum FailureAction {
    /// Sleep this many seconds.
    Sleep(u64),
    /// Send the message, which makes the next server fail, to its receiver.
    Send(Msg),
    /// Ask these peers for the directory of clients.
    QueryDirectory(Vec<ServerIps>),
    /// Ask these peers for pending updates.
    QueryPending(Vec<ServerIps>),
    Done,
}

/// Whether `after`, `next` and `action` are what one step of the failure `f`
/// makes of `before`, on a server that listens for elections at `own`.
pub open spec fn failure_step(
    before: &ServerStats,
    f: &Failure,
    own: AddrView,
    after: &ServerStats,
    next: &Failure,
    action: &FailureAction,
) -> bool {
    &&& next.seconds == f.seconds
    &&& after.same_but_down(before)
    &&& match f.phase {
        FailurePhase::Told => {
            &&& after.down
            &&& next.phase == FailurePhase::Down
            &&& action matches FailureAction::Sleep(time) && time == f.seconds
        },
        FailurePhase::Down => {
            &&& !after.down
            &&& next.phase == FailurePhase::Awake
            &&& action matches FailureAction::Send(msg) && tells_one_to_fail(
                &msg,
                own,
                before.peer_servers@,
            )
        },
        FailurePhase::Awake => {
            &&& after.down == before.down
            &&& next.phase == FailurePhase::DirectoryAsked
            &&& action matches FailureAction::QueryDirectory(peers) && peers@
                == before.peer_servers@
        },
        FailurePhase::DirectoryAsked => {
            &&& after.down == before.down
            &&& next.phase == FailurePhase::Over
            &&& action matches FailureAction::QueryPending(peers) && peers@ == before.peer_servers@
        },
        FailurePhase::Over => {
            &&& after.down == before.down
            &&& next.phase == FailurePhase::Over
            &&& action is Done
        },
    }
}

impl Failure {
    /// A failure that has not begun.
    pub fn new(seconds: u32) -> (failure: Failure)
        ensures
            failure.seconds == seconds,
            failure.phase == FailurePhase::Told,
    {
        Failure { seconds, phase: FailurePhase::Told }
    }
}

impl ServerStats {
    /// The message that makes the peer at position `index` fail.
    pub fn fail_msg(&self, sender: &SocketAddr, index: usize) -> (msg: Msg)
        requires
            index < self.peer_servers@.len(),
        ensures
            tells_to_fail(&msg, sender@, self.peer_servers@[index as int]),
    {
        Msg {
            sender: sender.clone(),
            receiver: self.peer_servers[index].1.clone(),
            msg_type: Type::Fail(FAIL_TIME),
            payload: None,
        }
    }

    /// The message that makes one of the peers, picked by chance, fail next.
    pub fn send_fail_msg(&self, sender: &SocketAddr) -> (msg: Msg)
        requires
            self.peer_servers@.len() > 0,
        ensures
            tells_one_to_fail(&msg, sender@, self.peer_servers@),
    {
        let index = pick(0, self.peer_servers.len());
        let msg = self.fail_msg(sender, index);
        proof {
            assert(tells_to_fail(&msg, sender@, self.peer_servers@[index as int]));
        }
        msg
    }

    /// Takes a simulated failure one step further. The caller performs the
    /// action and comes back, until there is nothing left to do.
    pub fn handle_fail_msg(&mut self, failure: &mut Failure, own_addr: &SocketAddr) -> (action:
        FailureAction)
        requires
            old(failure).phase == FailurePhase::Down ==> old(self).peer_servers@.len() > 0,
        ensures
            failure_step(
                old(self),
                old(failure),
                own_addr@,
                final(self),
                final(failure),
                &action,
            ),
    {
        match failure.phase {
            FailurePhase::Told => {
                self.down = true;
                failure.phase = FailurePhase::Down;
                FailureAction::Sleep(failure.seconds as u64)
            },
            FailurePhase::Down => {
                self.down = false;
                failure.phase = FailurePhase::Awake;
                FailureAction::Send(self.send_fail_msg(own_addr))
            },
            FailurePhase::Awake => {
                failure.phase = FailurePhase::DirectoryAsked;
                FailureAction::QueryDirectory(self.get_peer_servers())
            },
            FailurePhase::DirectoryAsked => {
                failure.phase = FailurePhase::Over;
                FailureAction::QueryPending(self.get_peer_servers())
            },
            FailurePhase::Over => FailureAction::Done,
        }
    }
}

// ---------------------------------------------------------------------------
// Messages at the service address
// ---------------------------------------------------------------------------

/// What to do about a message at the service address.
#[derive(Debug, PartialEq, Eq)]
pub enum ServiceTask {
    Ignore,
    /// Add a block to the picture it belongs to.
    ReceiveFragment,
    /// Pass on that a block of a message has arrived.
    Acknowledge(String, u32),
    /// Answer with the directory of clients.
    ReplyDirectory,
    /// Enter the sender in the directory.
    Join,
    /// Note in the directory that the sender has left.
    Leave,
    /// Keep an update of a picture's views until its peer is back.
    KeepUpdate(String, Action),
    /// Answer with the updates that wait for the sender.
    ReplyPending,
}

/// What to do about a message at the service address.
pub open spec fn service_task_of(msg_type: Type) -> ServiceTask {
    match msg_type {
        Type::Fragment => ServiceTask::ReceiveFragment,
        Type::Ack(msg_id, block_id) => ServiceTask::Acknowledge(msg_id, block_id),
        Type::DirOfServQuery => ServiceTask::ReplyDirectory,
        Type::DirOfServJoin => ServiceTask::Join,
        Type::DirOfServLeave => ServiceTask::Leave,
        Type::UpdateAccess(img_id, action) => ServiceTask::KeepUpdate(img_id, action),
        Type::ClientDirOfServQueryPending => ServiceTask::ReplyPending,
        _ => ServiceTask::Ignore,
    }
}

/// What to do about a message at the service address.
pub fn handle_service_msg(msg: Msg) -> (task: ServiceTask)
    ensures
        task == service_task_of(msg.msg_type),
{
    match msg.msg_type {
        Type::Fragment => ServiceTask::ReceiveFragment,
        Type::Ack(msg_id, block_id) => ServiceTask::Acknowledge(msg_id, block_id),
        Type::DirOfServQuery => ServiceTask::ReplyDirectory,
        Type::DirOfServJoin => ServiceTask::Join,
        Type::DirOfServLeave => ServiceTask::Leave,
        Type::UpdateAccess(img_id, action) => ServiceTask::KeepUpdate(img_id, action),
        Type::ClientDirOfServQueryPending => ServiceTask::ReplyPending,
        _ => ServiceTask::Ignore,
    }
}

/// The cover picture for a picture of `len` bytes: the larger the picture, the
/// larger its cover.
pub open spec fn default_image_of(len: int) -> Seq<char> {
    if len > 9100000 {
        "default_images/def6.png"@
    } else if len > 3000000 {
        "default_images/def5.png"@
    } else if len > 2100000 {
        "default_images/def4.png"@
    } else if len > 670000 {
        "default_images/def3.png"@
    } else if len > 350000 {
        "default_images/def2.png"@
    } else {
        "default_images/def1.png"@
    }
}

/// The cover picture for a picture of `len` bytes.
pub fn default_image(len: usize) -> (path: &'static str)
    ensures
        path@ == default_image_of(len as int),
{
    if len > 9100000 {
        "default_images/def6.png"
    } else if len > 3000000 {
        "default_images/def5.png"
    } else if len > 2100000 {
        "default_images/def4.png"
    } else if len > 670000 {
        "default_images/def3.png"
    } else if len > 350000 {
        "default_images/def2.png"
    } else {
        "default_images/def1.png"
    }
}

} // verus!
