//! What holds of the servers.

use crate::address::AddrView;
use crate::laws::unbeaten;
use crate::message::{same_pending, Action, Msg, Type};
use crate::priority::Priority;
use crate::server::{
    announces,
    asks_with,
    client_turn,
    default_image_of,
    elec_task,
    election_step,
    election_turn,
    failure_step,
    or_insert,
    outranks,
    service_task_of,
    tells_one_to_fail,
    tells_peers,
    tells_to_fail,
    ClientTurn,
    ElecTask,
    Election,
    ElectionAction,
    ElectionPhase,
    ElectionTurn,
    Failure,
    FailureAction,
    FailurePhase,
    ServerIps,
    ServerStats,
    ServiceTask,
};
use crate::text::{comes_before, decimal};
use vstd::arithmetic::power2::{lemma_pow2_pos, lemma_pow2_unfold, pow2};
use vstd::prelude::*;
use vstd::string::*;

verus! {

// ---------------------------------------------------------------------------
// Priorities
// ---------------------------------------------------------------------------

/// The size of the number with these bits, without the sign, in units of the
/// smallest number above zero: a fraction of 23 bits under an exponent.
pub open spec fn size_of_bits(m: int) -> int {
    let exponent = m / 0x80_0000;
    let fraction = m % 0x80_0000;
    if exponent == 0 {
        fraction
    } else {
        (0x80_0000 + fraction) * pow2((exponent - 1) as nat)
    }
}

/// The value of a priority in those units: negative where its highest bit is
/// set.
pub open spec fn value_of(p: Priority) -> int {
    if p.bits >= 0x8000_0000 {
        -size_of_bits(p.bits - 0x8000_0000)
    } else {
        size_of_bits(p.bits as int)
    }
}

/// Whether a priority has a value: its exponent is not the largest one, unless
/// it is infinite.
pub open spec fn has_value(p: Priority) -> bool {
    p.bits % 0x8000_0000 <= 0x7f80_0000
}

proof fn lemma_size_grows(a: int, b: int)
    requires
        0 <= a < b,
    ensures
        0 <= size_of_bits(a) < size_of_bits(b),
    decreases b - a,
{
    let m = b - 1;
    if a < m {
        lemma_size_grows(a, m);
    }
    let e = m / 0x80_0000;
    let f = m % 0x80_0000;
    assert(size_of_bits(m) >= 0) by {
        if e > 0 {
            lemma_pow2_pos((e - 1) as nat);
            assert((0x80_0000 + f) * pow2((e - 1) as nat) >= 0) by (nonlinear_arith)
                requires
                    f >= 0,
                    pow2((e - 1) as nat) > 0,
            ;
        }
    }
    assert(size_of_bits(m) < size_of_bits(b)) by {
        if f < 0x7f_ffff {
            assert(b / 0x80_0000 == e && b % 0x80_0000 == f + 1);
            if e > 0 {
                let unit = pow2((e - 1) as nat);
                lemma_pow2_pos((e - 1) as nat);
                assert((0x80_0000 + f + 1) * unit == (0x80_0000 + f) * unit + unit)
                    by (nonlinear_arith);
            }
        } else {
            assert(b / 0x80_0000 == e + 1 && b % 0x80_0000 == 0);
            lemma_pow2_pos(e as nat);
            if e == 0 {
                assert(pow2(0) >= 1);
                assert((0x80_0000 + 0) * pow2(0) >= 0x80_0000) by (nonlinear_arith)
                    requires
                        pow2(0) >= 1,
                ;
            } else {
                let unit = pow2((e - 1) as nat);
                lemma_pow2_pos((e - 1) as nat);
                lemma_pow2_unfold(e as nat);
                assert((0x80_0000 + 0x7f_ffff) * unit < 0x80_0000 * (2 * unit))
                    by (nonlinear_arith)
                    requires
                        unit > 0,
                ;
            }
        }
    }
}

/// Priorities are ordered by their values; what has none is neither above
/// anything nor below nor equal to it.
pub proof fn law_priorities_are_ordered_by_value(p: Priority, q: Priority)
    ensures
        p.is_number() <==> has_value(p),
        p.exceeds_spec(q) <==> has_value(p) && has_value(q) && value_of(p) > value_of(q),
        p.equals_spec(q) <==> has_value(p) && has_value(q) && value_of(p) == value_of(q),
        p.rank() > q.rank() <==> value_of(p) > value_of(q),
        p.rank() == q.rank() <==> value_of(p) == value_of(q),
{
    let a = if p.bits >= 0x8000_0000 {
        p.bits - 0x8000_0000
    } else {
        p.bits as int
    };
    let b = if q.bits >= 0x8000_0000 {
        q.bits - 0x8000_0000
    } else {
        q.bits as int
    };
    assert(size_of_bits(0) == 0);
    if a > 0 {
        lemma_size_grows(0, a);
    }
    if b > 0 {
        lemma_size_grows(0, b);
    }
    if a < b {
        lemma_size_grows(a, b);
    } else if b < a {
        lemma_size_grows(b, a);
    }
}

/// A server comes before another exactly if its priority has the higher value,
/// or both have the same value and its address comes later.
pub proof fn law_higher_priority_outranks(p: Priority, a: Seq<char>, q: Priority, b: Seq<char>)
    requires
        has_value(p),
        has_value(q),
    ensures
        value_of(p) > value_of(q) ==> outranks(p, a, q, b),
        value_of(p) < value_of(q) ==> !outranks(p, a, q, b),
        value_of(p) == value_of(q) ==> (outranks(p, a, q, b) <==> comes_before(b, a)),
        p.rank() > q.rank() ==> outranks(p, a, q, b),
        p.rank() < q.rank() ==> !outranks(p, a, q, b),
{
    law_priorities_are_ordered_by_value(p, q);
    law_priorities_are_ordered_by_value(q, p);
}

/// A server without a priority of any value comes before none, and none comes
/// before it.
pub proof fn law_no_value_outranks_nothing(p: Priority, a: Seq<char>, q: Priority, b: Seq<char>)
    requires
        !has_value(p),
    ensures
        !outranks(p, a, q, b),
        !outranks(q, b, p, a),
{
    law_priorities_are_ordered_by_value(p, q);
    law_priorities_are_ordered_by_value(q, p);
}

/// The server that wins among several has the highest priority, and the last
/// address among those with that priority.
pub proof fn law_winner_has_the_highest_priority(
    candidates: Seq<(Priority, Seq<char>)>,
    w: int,
    i: int,
)
    requires
        0 <= w < candidates.len(),
        0 <= i < candidates.len(),
        unbeaten(candidates, w),
        has_value(candidates[w].0),
        has_value(candidates[i].0),
    ensures
        value_of(candidates[i].0) <= value_of(candidates[w].0),
        value_of(candidates[i].0) == value_of(candidates[w].0) ==> !comes_before(
            candidates[w].1,
            candidates[i].1,
        ),
{
    law_higher_priority_outranks(
        candidates[i].0,
        candidates[i].1,
        candidates[w].0,
        candidates[w].1,
    );
}

// ---------------------------------------------------------------------------
// What a server knows
// ---------------------------------------------------------------------------

/// What is kept under a key stays; only where nothing is kept is something
/// put there. Nothing else changes.
pub proof fn law_what_came_first_stays<V>(
    map: Map<Seq<char>, V>,
    key: Seq<char>,
    value: V,
    other: Seq<char>,
)
    ensures
        map.contains_key(key) ==> or_insert(map, key, value) == map,
        !map.contains_key(key) ==> or_insert(map, key, value) == map.insert(key, value),
        or_insert(map, key, value).contains_key(key),
        other != key ==> or_insert(map, key, value).contains_key(other) == map.contains_key(other)
            && or_insert(map, key, value)[other] == map[other],
{
}

/// Whether all the requests and elections that two servers know are the same.
pub open spec fn know_the_same(a: &ServerStats, b: &ServerStats) -> bool {
    &&& a.elections_initiated_by_me@ == b.elections_initiated_by_me@
    &&& a.elections_received_oks@ == b.elections_received_oks@
    &&& a.running_elections@ == b.running_elections@
    &&& a.requests_buffer@ == b.requests_buffer@
}

/// Whether two servers have the same addresses and peers.
pub open spec fn stand_at_the_same_place(a: &ServerStats, b: &ServerStats) -> bool {
    a.peer_servers@ == b.peer_servers@ && a.own_ips == b.own_ips
}

/// A server that stays the same keeps all it knows: its peers and addresses,
/// whether it is down, its elections and its requests.
pub proof fn law_the_same_server_knows_the_same(a: &ServerStats, b: &ServerStats)
    ensures
        a.same(b) ==> know_the_same(a, b) && stand_at_the_same_place(a, b) && a.down == b.down,
        a.same_setting(b) ==> stand_at_the_same_place(a, b) && a.down == b.down,
        a.same_but_down(b) ==> know_the_same(a, b) && stand_at_the_same_place(a, b),
{
}

/// A server that forgets a request keeps its peers and addresses, and is down
/// as before.
pub proof fn law_forgetting_keeps_the_setting(
    before: &ServerStats,
    after: &ServerStats,
    req_id: Seq<char>,
)
    requires
        after.forgets(before, req_id),
    ensures
        stand_at_the_same_place(after, before),
        after.down == before.down,
        after.elections_initiated_by_me@ == before.elections_initiated_by_me@.remove(req_id),
        after.elections_received_oks@ == before.elections_received_oks@.remove(req_id),
        after.running_elections@ == before.running_elections@.remove(req_id),
        after.requests_buffer@ == before.requests_buffer@.remove(req_id),
{
}

/// A server enters an election with the priority measured, unless it is in it;
/// nothing else changes.
pub proof fn law_entering_an_election(
    before: &ServerStats,
    after: &ServerStats,
    req_id: Seq<char>,
    measured: Priority,
)
    requires
        after.enters(before, req_id, measured),
    ensures
        after.running_elections@.contains_key(req_id),
        before.running_elections@.contains_key(req_id) ==> after.running_elections@
            == before.running_elections@,
        !before.running_elections@.contains_key(req_id) ==> after.running_elections@
            == before.running_elections@.insert(req_id, measured),
        after.elections_initiated_by_me@ == before.elections_initiated_by_me@,
        after.elections_received_oks@ == before.elections_received_oks@,
        after.requests_buffer@ == before.requests_buffer@,
        stand_at_the_same_place(after, before),
        after.down == before.down,
{
}

// ---------------------------------------------------------------------------
// Elections
// ---------------------------------------------------------------------------

/// The priority with which a server is in an election: the one it entered
/// with, or the one measured now.
pub open spec fn own_priority(
    before: &ServerStats,
    req_id: Seq<char>,
    measured: Priority,
) -> Priority {
    if before.running_elections@.contains_key(req_id) {
        before.running_elections@[req_id]
    } else {
        measured
    }
}

/// A server that hears of another's election answers if its own priority has
/// the higher value, and does not if it has the lower one; between equal ones
/// the later address decides.
pub proof fn law_higher_priority_answers(
    before: &ServerStats,
    p: Priority,
    req_id: Seq<char>,
    src: AddrView,
    own: AddrView,
    measured: Priority,
    after: &ServerStats,
    turn: &ElectionTurn,
)
    requires
        election_turn(before, p, req_id, src, own, measured, after, turn),
    ensures
        ({
            let mine = own_priority(before, req_id, measured);
            has_value(mine) && has_value(p) ==> {
                &&& value_of(mine) > value_of(p) ==> turn.ok is Some
                &&& value_of(mine) < value_of(p) ==> turn.ok is None
                &&& value_of(mine) == value_of(p) ==> (turn.ok is Some <==> comes_before(
                    src.text(),
                    own.text(),
                ))
            }
        }),
        !has_value(p) || !has_value(own_priority(before, req_id, measured)) ==> turn.ok is None,
{
    let mine = own_priority(before, req_id, measured);
    law_priorities_are_ordered_by_value(mine, p);
}

/// An answer goes to the server that asked, under the name of the request, with
/// the priority of the server that answers. That server opens an election of
/// its own unless it has opened one. In any case it is now in the election, and
/// nothing else changes.
pub proof fn law_answer_tells_the_own_priority(
    before: &ServerStats,
    p: Priority,
    req_id: Seq<char>,
    src: AddrView,
    own: AddrView,
    measured: Priority,
    after: &ServerStats,
    turn: &ElectionTurn,
)
    requires
        election_turn(before, p, req_id, src, own, measured, after, turn),
    ensures
        turn.ok matches Some(m) ==> {
            &&& m.sender@ == own
            &&& m.receiver@ == src
            &&& m.msg_type == Type::OKMsg(own_priority(before, req_id, measured))
            &&& m.payload matches Some(t) && t@ == req_id
        },
        turn.opens <==> turn.ok is Some && !before.elections_initiated_by_me@.contains(req_id),
        turn.ok is Some ==> after.elections_initiated_by_me@
            == before.elections_initiated_by_me@.insert(req_id),
        turn.ok is None ==> after.elections_initiated_by_me@ == before.elections_initiated_by_me@,
        after.running_elections@ == before.running_elections@.insert(
            req_id,
            own_priority(before, req_id, measured),
        ),
        after.elections_received_oks@ == before.elections_received_oks@,
        after.requests_buffer@ == before.requests_buffer@,
        stand_at_the_same_place(after, before),
        after.down == before.down,
{
    assert(before.running_elections@.contains_key(req_id) ==> before.running_elections@
        == before.running_elections@.insert(req_id, before.running_elections@[req_id]));
}

/// Whether there is one message for each peer, in order, from `sender` to the
/// peer's election address, about the request.
pub open spec fn one_for_each(
    msgs: Seq<Msg>,
    peers: Seq<ServerIps>,
    sender: AddrView,
    req_id: Seq<char>,
) -> bool {
    &&& msgs.len() == peers.len()
    &&& forall|i: int|
        0 <= i < msgs.len() ==> (#[trigger] msgs[i]).sender@ == sender && msgs[i].receiver@
            == peers[i].1@ && (msgs[i].payload matches Some(t) && t@ == req_id)
}

/// All peers are told the same thing about a request, each at its election
/// address: a priority that stands for election, or the address of the winner.
pub proof fn law_all_peers_are_told(
    msgs: Seq<Msg>,
    peers: Seq<ServerIps>,
    sender: AddrView,
    p: Priority,
    leader: Seq<char>,
    req_id: Seq<char>,
)
    ensures
        tells_peers(msgs, peers, sender, asks_with(p), req_id) ==> one_for_each(
            msgs,
            peers,
            sender,
            req_id,
        ) && forall|i: int|
            0 <= i < msgs.len() ==> (#[trigger] msgs[i]).msg_type == Type::ElectionRequest(p),
        tells_peers(msgs, peers, sender, announces(leader), req_id) ==> one_for_each(
            msgs,
            peers,
            sender,
            req_id,
        ) && forall|i: int|
            0 <= i < msgs.len() ==> ((#[trigger] msgs[i]).msg_type matches Type::CoordinatorBrdCast(
                l,
            ) && l@ == leader),
{
    if tells_peers(msgs, peers, sender, asks_with(p), req_id) {
        assert forall|i: int| 0 <= i < msgs.len() implies (#[trigger] msgs[i]).msg_type
            == Type::ElectionRequest(p) by {
            assert(asks_with(p)(msgs[i].msg_type));
        }
    }
    if tells_peers(msgs, peers, sender, announces(leader), req_id) {
        assert forall|i: int| 0 <= i < msgs.len() implies ((
        #[trigger] msgs[i]).msg_type matches Type::CoordinatorBrdCast(l) && l@ == leader) by {
            assert(announces(leader)(msgs[i].msg_type));
        }
    }
}

/// An election for a client opens unless the server is in it already. Then all
/// peers are asked with the priority that the server is in with, which is the
/// one measured where it was not in.
pub proof fn law_election_opens_once(
    before: &ServerStats,
    e: &Election,
    own: AddrView,
    after: &ServerStats,
    next: &Election,
    action: &ElectionAction,
)
    requires
        e.phase == ElectionPhase::Opening,
        election_step(before, e, own, after, next, action),
    ensures
        next.req_id@ == e.req_id@,
        next.init_f == e.init_f,
        next.measured == e.measured,
        e.init_f && before.running_elections@.contains_key(e.req_id@) ==> {
            &&& action is Done
            &&& next.phase == ElectionPhase::Over
            &&& know_the_same(after, before)
        },
        !(e.init_f && before.running_elections@.contains_key(e.req_id@)) ==> {
            let mine = own_priority(before, e.req_id@, e.measured);
            &&& action matches ElectionAction::Send(msgs) && one_for_each(
                msgs@,
                before.peer_servers@,
                own,
                e.req_id@,
            ) && forall|i: int|
                0 <= i < msgs@.len() ==> (#[trigger] msgs@[i]).msg_type == Type::ElectionRequest(
                    mine,
                )
            &&& next.phase == ElectionPhase::Asked
            &&& next.peers@ == before.peer_servers@
            &&& after.running_elections@ == before.running_elections@.insert(e.req_id@, mine)
            &&& after.elections_initiated_by_me@ == before.elections_initiated_by_me@.insert(
                e.req_id@,
            )
            &&& after.elections_received_oks@ == before.elections_received_oks@
            &&& after.requests_buffer@ == before.requests_buffer@
        },
        stand_at_the_same_place(after, before),
        after.down == before.down,
{
    let id = e.req_id@;
    let mine = own_priority(before, id, e.measured);
    if !(e.init_f && before.running_elections@.contains_key(id)) {
        assert(before.running_elections@.contains_key(id) ==> before.running_elections@
            == before.running_elections@.insert(id, before.running_elections@[id]));
        let msgs = action->Send_0;
        law_all_peers_are_told(msgs@, before.peer_servers@, own, mine, own.text(), id);
    }
}

/// After asking, a server waits half a second for answers. Then it announces
/// itself to the peers that it asked, by its own address, exactly if none has
/// come. Neither changes what it knows.
pub proof fn law_unanswered_server_announces_itself(
    before: &ServerStats,
    e: &Election,
    own: AddrView,
    after: &ServerStats,
    next: &Election,
    action: &ElectionAction,
)
    requires
        e.phase == ElectionPhase::Asked || e.phase == ElectionPhase::Deciding,
        election_step(before, e, own, after, next, action),
    ensures
        e.phase == ElectionPhase::Asked ==> *action == ElectionAction::WaitForOks(500)
            && next.phase == ElectionPhase::Deciding,
        e.phase == ElectionPhase::Deciding && before.elections_received_oks@.contains(e.req_id@)
            ==> action is Done && next.phase == ElectionPhase::Over,
        e.phase == ElectionPhase::Deciding && !before.elections_received_oks@.contains(e.req_id@)
            ==> next.phase == ElectionPhase::Announced && (action matches ElectionAction::Broadcast(
            msgs,
        ) && one_for_each(msgs@, e.peers@, own, e.req_id@) && forall|i: int|
            0 <= i < msgs@.len() ==> ((
            #[trigger] msgs@[i]).msg_type matches Type::CoordinatorBrdCast(l) && l@ == own.text())),
        know_the_same(after, before),
        stand_at_the_same_place(after, before),
        after.down == before.down,
        next.peers@ == e.peers@,
        next.req_id@ == e.req_id@,
{
    if action is Broadcast {
        law_all_peers_are_told(
            (action->Broadcast_0)@,
            e.peers@,
            own,
            e.measured,
            own.text(),
            e.req_id@,
        );
    }
}

/// The winner tells the client whose request waits here, and no other, its
/// service address, and then forgets the request.
pub proof fn law_winner_replies_to_the_client(
    before: &ServerStats,
    e: &Election,
    own: AddrView,
    after: &ServerStats,
    next: &Election,
    action: &ElectionAction,
)
    requires
        e.phase == ElectionPhase::Announced || e.phase == ElectionPhase::Replied || e.phase
            == ElectionPhase::Over,
        election_step(before, e, own, after, next, action),
    ensures
        e.phase == ElectionPhase::Announced ==> {
            &&& next.phase == ElectionPhase::Replied
            &&& know_the_same(after, before)
            &&& action matches ElectionAction::Reply(reply) && if before.requests_buffer@.contains_key(
                e.req_id@,
            ) {
                reply matches Some(r) && r.0@ == before.requests_buffer@[e.req_id@].sender@ && r.1@
                    == (before.own_ips->0).0@.text()
            } else {
                reply is None
            }
        },
        e.phase == ElectionPhase::Replied ==> {
            &&& next.phase == ElectionPhase::Over
            &&& action is Done
            &&& after.elections_initiated_by_me@ == before.elections_initiated_by_me@.remove(
                e.req_id@,
            )
            &&& after.elections_received_oks@ == before.elections_received_oks@.remove(e.req_id@)
            &&& after.running_elections@ == before.running_elections@.remove(e.req_id@)
            &&& after.requests_buffer@ == before.requests_buffer@.remove(e.req_id@)
        },
        e.phase == ElectionPhase::Over ==> next.phase == ElectionPhase::Over && action is Done
            && know_the_same(after, before),
        stand_at_the_same_place(after, before),
        after.down == before.down,
        next.req_id@ == e.req_id@,
{
}

// ---------------------------------------------------------------------------
// Messages at the election address
// ---------------------------------------------------------------------------

/// A client's request is kept under its name unless one of that name is kept,
/// and the server waits from 10 to 29 milliseconds for an election, unless one
/// is under way. Nothing else changes.
pub proof fn law_request_is_kept_and_waits(
    before: &ServerStats,
    id: u32,
    msg: Msg,
    after: &ServerStats,
    turn: &ClientTurn,
)
    requires
        client_turn(before, id, msg, after, turn),
    ensures
        turn.req_id@ == msg.sender@.text() + ":"@ + decimal(id as nat),
        before.requests_buffer@.contains_key(turn.req_id@) ==> after.requests_buffer@
            == before.requests_buffer@,
        !before.requests_buffer@.contains_key(turn.req_id@) ==> after.requests_buffer@
            == before.requests_buffer@.insert(turn.req_id@, msg),
        before.running_elections@.contains_key(turn.req_id@) ==> turn.wait is None,
        !before.running_elections@.contains_key(turn.req_id@) ==> (turn.wait matches Some(time)
            && 10 <= time <= 29),
        after.elections_initiated_by_me@ == before.elections_initiated_by_me@,
        after.elections_received_oks@ == before.elections_received_oks@,
        after.running_elections@ == before.running_elections@,
        stand_at_the_same_place(after, before),
        after.down == before.down,
{
    reveal_strlit(":");
    assert(":"@ == seq![':']);
}

/// Messages that are about one election must name it. An election is handed on
/// with its priority and name; an answer is noted; an announcement makes the
/// server forget the request.
pub proof fn law_messages_about_an_election(
    before: &ServerStats,
    m: Msg,
    after: &ServerStats,
    task: &ElecTask,
)
    requires
        elec_task(before, Some(m), after, task),
        m.msg_type is ElectionRequest || m.msg_type is OKMsg || m.msg_type is CoordinatorBrdCast,
    ensures
        m.payload is None ==> task is MissingPayload && know_the_same(after, before),
        m.payload matches Some(req_id) ==> {
            &&& m.msg_type matches Type::ElectionRequest(p) ==> *task == ElecTask::Election(
                p,
                req_id,
            ) && know_the_same(after, before)
            &&& m.msg_type is OKMsg ==> {
                &&& task is Handled
                &&& after.elections_received_oks@ == before.elections_received_oks@.insert(req_id@)
                &&& after.elections_initiated_by_me@ == before.elections_initiated_by_me@
                &&& after.running_elections@ == before.running_elections@
                &&& after.requests_buffer@ == before.requests_buffer@
            }
            &&& m.msg_type is CoordinatorBrdCast ==> {
                &&& task is Handled
                &&& after.elections_received_oks@ == before.elections_received_oks@.remove(req_id@)
                &&& after.elections_initiated_by_me@ == before.elections_initiated_by_me@.remove(
                    req_id@,
                )
                &&& after.running_elections@ == before.running_elections@.remove(req_id@)
                &&& after.requests_buffer@ == before.requests_buffer@.remove(req_id@)
            }
        },
        stand_at_the_same_place(after, before),
        after.down == before.down,
{
}

/// Failures, questions and answers between servers are handed on with all that
/// they tell; bytes that are no message and messages of other kinds mean
/// nothing. None of them changes what the server knows.
pub proof fn law_messages_between_servers(
    before: &ServerStats,
    msg: Option<Msg>,
    after: &ServerStats,
    task: &ElecTask,
)
    requires
        elec_task(before, msg, after, task),
        msg matches Some(m) ==> !(m.msg_type is ClientRequest || m.msg_type is ElectionRequest
            || m.msg_type is OKMsg || m.msg_type is CoordinatorBrdCast),
    ensures
        know_the_same(after, before),
        stand_at_the_same_place(after, before),
        after.down == before.down,
        msg is None ==> task is Ignore,
        msg matches Some(m) ==> {
            &&& m.msg_type matches Type::Fail(time) ==> *task == ElecTask::Fail(time)
            &&& m.msg_type is DirOfServQuery ==> task is ReplyDirectory
            &&& m.msg_type matches Type::DirOfServQueryReply(list) ==> *task
                == ElecTask::UpdateDirectory(list)
            &&& m.msg_type is ServerDirOfServQueryPending ==> task is ReplyPending
            &&& m.msg_type matches Type::ServerDirOfServQueryPendingReply(list) ==> *task
                == ElecTask::UpdatePending(list)
            &&& m.msg_type is Fragment || m.msg_type is Ack || m.msg_type is LowResImgReq
                || m.msg_type is LowResImgReply || m.msg_type is ImageRequest
                || m.msg_type is SharedImage || m.msg_type is UpdateAccessRequest
                || m.msg_type is UpdateAccess || m.msg_type is DirOfServJoin
                || m.msg_type is DirOfServLeave || m.msg_type is ClientDirOfServQueryPending
                || m.msg_type is ClientDirOfServQueryPendingReply ==> task is Ignore
        },
{
}

/// A client's request at the election address is kept as such.
pub proof fn law_requests_come_at_the_election_address(
    before: &ServerStats,
    m: Msg,
    id: u32,
    after: &ServerStats,
    task: &ElecTask,
)
    requires
        elec_task(before, Some(m), after, task),
        m.msg_type == Type::ClientRequest(id),
    ensures
        task matches ElecTask::Client(turn) && client_turn(before, id, m, after, &turn),
{
}

// ---------------------------------------------------------------------------
// Failures
// ---------------------------------------------------------------------------

/// The next server to fail is one of the peers. It is told so at its election
/// address, for a minute.
pub proof fn law_one_peer_is_told_to_fail(msg: &Msg, sender: AddrView, peers: Seq<ServerIps>)
    requires
        tells_one_to_fail(msg, sender, peers),
    ensures
        msg.msg_type == Type::Fail(60),
        msg.sender@ == sender,
        msg.payload is None,
        exists|i: int| 0 <= i < peers.len() && msg.receiver@ == (#[trigger] peers[i]).1@,
{
    let i = choose|i: int|
        0 <= i < peers.len() && tells_to_fail(msg, sender, #[trigger] peers[i]);
    assert(msg.receiver@ == peers[i].1@);
}

/// A failure goes through its phases in order. The server is down from the
/// moment it is told until it wakes up, and while it fails it keeps all it
/// knows.
pub proof fn law_failure_goes_through_its_phases(
    before: &ServerStats,
    f: &Failure,
    own: AddrView,
    after: &ServerStats,
    next: &Failure,
    action: &FailureAction,
)
    requires
        failure_step(before, f, own, after, next, action),
    ensures
        next.seconds == f.seconds,
        know_the_same(after, before),
        stand_at_the_same_place(after, before),
        f.phase == FailurePhase::Told ==> after.down && next.phase == FailurePhase::Down && *action
            == FailureAction::Sleep(f.seconds as u64),
        f.phase == FailurePhase::Down ==> !after.down && next.phase == FailurePhase::Awake
            && action is Send && tells_one_to_fail(&action->Send_0, own, before.peer_servers@),
        f.phase == FailurePhase::Awake ==> after.down == before.down && next.phase
            == FailurePhase::DirectoryAsked && (action matches FailureAction::QueryDirectory(peers)
            && peers@ == before.peer_servers@),
        f.phase == FailurePhase::DirectoryAsked ==> after.down == before.down && next.phase
            == FailurePhase::Over && (action matches FailureAction::QueryPending(peers) && peers@
            == before.peer_servers@),
        f.phase == FailurePhase::Over ==> after.down == before.down && next.phase
            == FailurePhase::Over && action is Done,
{
}

// ---------------------------------------------------------------------------
// Messages at the service address
// ---------------------------------------------------------------------------

/// Every change of views that comes to a server is kept, with the picture's
/// name and the change as they came, whatever the change is; and nothing else
/// is kept as one.
pub proof fn law_every_update_is_kept(t: Type, img_id: String, action: Action)
    ensures
        service_task_of(t) == ServiceTask::KeepUpdate(img_id, action) <==> t == Type::UpdateAccess(
            img_id,
            action,
        ),
{
}

/// Blocks, acknowledgements, joining, leaving and both kinds of questions are
/// handed on with all that they tell, each to what it is for, and nothing else
/// is; all other messages mean nothing at the service address.
pub proof fn law_service_messages_are_handed_on(t: Type, msg_id: String, block: u32)
    ensures
        service_task_of(t) is ReceiveFragment <==> t is Fragment,
        service_task_of(t) == ServiceTask::Acknowledge(msg_id, block) <==> t == Type::Ack(
            msg_id,
            block,
        ),
        service_task_of(t) is ReplyDirectory <==> t is DirOfServQuery,
        service_task_of(t) is Join <==> t is DirOfServJoin,
        service_task_of(t) is Leave <==> t is DirOfServLeave,
        service_task_of(t) is ReplyPending <==> t is ClientDirOfServQueryPending,
        service_task_of(t) is Ignore <==> !(t is Fragment || t is Ack || t is DirOfServQuery
            || t is DirOfServJoin || t is DirOfServLeave || t is UpdateAccess
            || t is ClientDirOfServQueryPending),
{
}

/// The sizes above which the next larger cover is taken.
pub open spec fn cover_sizes() -> Seq<int> {
    seq![350000, 670000, 2100000, 3000000, 9100000]
}

/// There are six covers. A picture gets the one that comes after as many as
/// there are sizes that it is over.
pub proof fn law_larger_pictures_get_larger_covers(len: int, k: int)
    requires
        0 <= k <= 5,
        k > 0 ==> len > cover_sizes()[k - 1],
        k < 5 ==> len <= cover_sizes()[k],
    ensures
        default_image_of(len) == "default_images/def"@ + decimal((k + 1) as nat) + ".png"@,
{
    reveal_strlit("default_images/def");
    reveal_strlit(".png");
    reveal_strlit("default_images/def1.png");
    reveal_strlit("default_images/def2.png");
    reveal_strlit("default_images/def3.png");
    reveal_strlit("default_images/def4.png");
    reveal_strlit("default_images/def5.png");
    reveal_strlit("default_images/def6.png");
    assert(default_image_of(len) == "default_images/def"@ + decimal((k + 1) as nat) + ".png"@);
}

// ---------------------------------------------------------------------------
// Copies of messages
// ---------------------------------------------------------------------------

/// A message that says the same holds the same: a picture with its size and
/// bytes, lists with their entries in order, and all else as it is.
pub proof fn law_same_messages_hold_the_same(a: Type, b: Type)
    requires
        a.same(&b),
    ensures
        a matches Type::SharedImage(name, image, access) ==> (b matches Type::SharedImage(n, i, v)
            && name == n && access == v && image.dims == i.dims && image.data@ == i.data@),
        a matches Type::DirOfServQueryReply(list) ==> (b matches Type::DirOfServQueryReply(l)
            && list@ == l@),
        a matches Type::ClientDirOfServQueryPendingReply(Some(list)) ==> (
        b matches Type::ClientDirOfServQueryPendingReply(Some(l)) && list@ == l@),
        a matches Type::ServerDirOfServQueryPendingReply(list) ==> (
        b matches Type::ServerDirOfServQueryPendingReply(l) && list@.len() == l@.len() && forall|
            i: int,
        |
            0 <= i < list@.len() ==> (#[trigger] list@[i]).0 == l@[i].0 && list@[i].1@ == l@[i].1@),
        !(a is SharedImage || a is DirOfServQueryReply || a is ServerDirOfServQueryPendingReply || (
        a matches Type::ClientDirOfServQueryPendingReply(u) && u is Some)) ==> a == b,
{
    if let Type::ServerDirOfServQueryPendingReply(list) = a {
        if let Type::ServerDirOfServQueryPendingReply(l) = b {
            assert(same_pending(list@, l@));
        }
    }
}

} // verus!
