//! What holds of the program as a whole.

pub mod cloud;
pub mod peers;
pub mod pictures;
pub mod places;
pub mod words;

use crate::address::{AddrView, SocketAddr};
use crate::client::{
    access_after,
    choice_text,
    encryption_step,
    file_part,
    granted_views,
    has_left,
    is_pending_update,
    is_plain,
    png_name,
    sharing_step,
    takes_complete_msg,
    takes_update,
    takes_view,
    ChoiceEvent,
    ClientBackend,
    EncryptionEvent,
    EncryptionJob,
    EncryptionPhase,
    EncryptionRun,
    EncryptionStep,
    PendingUpdate,
    Sharing,
    SharingStep,
    Target,
};
use crate::ids::{
    image_id_of,
    lemma_image_id_name,
    lemma_image_id_parts,
    path_of,
    request_id_of,
};
use crate::ledger::{first_index, lemma_granted, names};
use crate::message::{Action, Msg, Type};
use crate::picture::Image;
use crate::priority::Priority;
use crate::server::{
    announces,
    asks_with,
    client_turn,
    election_step,
    election_turn,
    failure_step,
    outranks,
    tells_one_to_fail,
    tells_peers,
    ClientTurn,
    Election,
    ElectionAction,
    ElectionPhase,
    ElectionTurn,
    Failure,
    FailureAction,
    FailurePhase,
    ServerStats,
};
use crate::text::{
    decimal,
    file_name_of,
    find_last,
    is_digit,
    lemma_decimal,
    lemma_decimal_read_back,
    lemma_find_last,
    lemma_order_total,
    lemma_order_transitive,
    lemma_split_first,
    lemma_split_last,
    lemma_split_none,
    split_at_each,
    stem_of,
};
use crate::utils::{is_peer, logged_req_id, service_of, Ips};
use crate::waiting::{after_rounds, Wait};
use vstd::prelude::*;
use vstd::utf8::*;

verus! {

// ---------------------------------------------------------------------------
// Elections
// ---------------------------------------------------------------------------

/// Of two servers at different addresses, whose priorities are numbers,
/// exactly one comes before the other.
pub proof fn law_one_of_two_outranks(
    p: Priority,
    a: Seq<char>,
    q: Priority,
    b: Seq<char>,
)
    requires
        p.is_number(),
        q.is_number(),
        a != b,
    ensures
        outranks(p, a, q, b) <==> !outranks(q, b, p, a),
{
    lemma_order_total(a, b);
}

/// A server that comes before another also comes before all that the other
/// comes before.
pub proof fn law_outranks_transitive(
    p: Priority,
    a: Seq<char>,
    q: Priority,
    b: Seq<char>,
    r: Priority,
    c: Seq<char>,
)
    requires
        outranks(p, a, q, b),
        outranks(q, b, r, c),
    ensures
        outranks(p, a, r, c),
{
    if p.equals_spec(q) && q.equals_spec(r) {
        lemma_order_transitive(c, b, a);
    }
}

/// No server comes before itself.
pub proof fn law_no_server_outranks_itself(p: Priority, a: Seq<char>)
    ensures
        !outranks(p, a, p, a),
{
    lemma_order_total(a, a);
}

/// Whether no candidate comes before the one at position `i`.
pub open spec fn unbeaten(candidates: Seq<(Priority, Seq<char>)>, i: int) -> bool {
    forall|j: int|
        0 <= j < candidates.len() ==> !outranks(
            (#[trigger] candidates[j]).0,
            candidates[j].1,
            candidates[i].0,
            candidates[i].1,
        )
}

/// Among servers at different addresses, whose priorities are numbers, exactly
/// one is unbeaten: every election can be won, and by one server only.
pub proof fn law_one_winner(candidates: Seq<(Priority, Seq<char>)>)
    requires
        candidates.len() > 0,
        forall|i: int| 0 <= i < candidates.len() ==> (#[trigger] candidates[i]).0.is_number(),
        forall|i: int, j: int|
            0 <= i < j < candidates.len() ==> (#[trigger] candidates[i]).1 != (
            #[trigger] candidates[j]).1,
    ensures
        exists|i: int| 0 <= i < candidates.len() && #[trigger] unbeaten(candidates, i),
        forall|i: int, j: int|
            0 <= i < candidates.len() && 0 <= j < candidates.len() && #[trigger] unbeaten(
                candidates,
                i,
            ) && #[trigger] unbeaten(candidates, j) ==> i == j,
{
    lemma_winner_exists(candidates);
    assert forall|i: int, j: int|
        0 <= i < candidates.len() && 0 <= j < candidates.len() && #[trigger] unbeaten(candidates, i)
            && #[trigger] unbeaten(candidates, j) implies i == j by {
        if i != j {
            law_one_of_two_outranks(
                candidates[i].0,
                candidates[i].1,
                candidates[j].0,
                candidates[j].1,
            );
        }
    }
}

/// The unbeaten server answers every other candidate, and none of them answers
/// it.
pub proof fn law_winner_answers_all_others(
    candidates: Seq<(Priority, Seq<char>)>,
    w: int,
    other: int,
)
    requires
        0 <= w < candidates.len(),
        0 <= other < candidates.len(),
        unbeaten(candidates, w),
        candidates[w].0.is_number(),
        candidates[other].0.is_number(),
        candidates[w].1 != candidates[other].1,
    ensures
        outranks(
            candidates[w].0,
            candidates[w].1,
            candidates[other].0,
            candidates[other].1,
        ),
        !outranks(
            candidates[other].0,
            candidates[other].1,
            candidates[w].0,
            candidates[w].1,
        ),
{
    law_one_of_two_outranks(
        candidates[w].0,
        candidates[w].1,
        candidates[other].0,
        candidates[other].1,
    );
}

proof fn lemma_winner_exists(candidates: Seq<(Priority, Seq<char>)>)
    requires
        candidates.len() > 0,
        forall|i: int| 0 <= i < candidates.len() ==> (#[trigger] candidates[i]).0.is_number(),
        forall|i: int, j: int|
            0 <= i < j < candidates.len() ==> (#[trigger] candidates[i]).1 != (
            #[trigger] candidates[j]).1,
    ensures
        exists|i: int| 0 <= i < candidates.len() && #[trigger] unbeaten(candidates, i),
    decreases candidates.len(),
{
    let last = candidates.len() - 1;
    if candidates.len() == 1 {
        law_no_server_outranks_itself(candidates[0].0, candidates[0].1);
        assert(unbeaten(candidates, 0));
    } else {
        let fewer = candidates.drop_last();
        assert forall|i: int| 0 <= i < fewer.len() implies (#[trigger] fewer[i]).0.is_number() by {
            assert(fewer[i] == candidates[i]);
        }
        assert forall|i: int, j: int| 0 <= i < j < fewer.len() implies (#[trigger] fewer[i]).1 != (
        #[trigger] fewer[j]).1 by {
            assert(fewer[i] == candidates[i] && fewer[j] == candidates[j]);
        }
        lemma_winner_exists(fewer);
        let w = choose|i: int| 0 <= i < fewer.len() && #[trigger] unbeaten(fewer, i);
        let old = candidates[w];
        let new = candidates[last];
        if outranks(new.0, new.1, old.0, old.1) {
            assert forall|j: int| 0 <= j < candidates.len() implies !outranks(
                (#[trigger] candidates[j]).0,
                candidates[j].1,
                new.0,
                new.1,
            ) by {
                if j == last {
                    law_no_server_outranks_itself(new.0, new.1);
                } else {
                    let c = candidates[j];
                    assert(fewer[j] == c);
                    if outranks(c.0, c.1, new.0, new.1) {
                        law_outranks_transitive(c.0, c.1, new.0, new.1, old.0, old.1);
                        assert(!outranks(fewer[j].0, fewer[j].1, fewer[w].0, fewer[w].1));
                    }
                }
            }
            assert(unbeaten(candidates, last));
        } else {
            assert forall|j: int| 0 <= j < candidates.len() implies !outranks(
                (#[trigger] candidates[j]).0,
                candidates[j].1,
                old.0,
                old.1,
            ) by {
                if j < last {
                    assert(fewer[j] == candidates[j]);
                    assert(!outranks(fewer[j].0, fewer[j].1, fewer[w].0, fewer[w].1));
                }
            }
            assert(unbeaten(candidates, w));
        }
    }
}

/// An election in which no peer answers ends with this server as the
/// coordinator: it asks all peers with the priority it is in with, waits,
/// announces itself to them, gives the client its service address, and
/// forgets the request; whatever else it knew stays.
pub proof fn law_unopposed_election(
    own: AddrView,
    s0: &ServerStats,
    e0: &Election,
    s1: &ServerStats,
    e1: &Election,
    a1: &ElectionAction,
    s2: &ServerStats,
    e2: &Election,
    a2: &ElectionAction,
    s3: &ServerStats,
    e3: &Election,
    a3: &ElectionAction,
    s4: &ServerStats,
    e4: &Election,
    a4: &ElectionAction,
    s5: &ServerStats,
    e5: &Election,
    a5: &ElectionAction,
)
    requires
        e0.phase == ElectionPhase::Opening,
        !(e0.init_f && s0.running_elections@.contains_key(e0.req_id@)),
        !s0.elections_received_oks@.contains(e0.req_id@),
        election_step(s0, e0, own, s1, e1, a1),
        election_step(s1, e1, own, s2, e2, a2),
        election_step(s2, e2, own, s3, e3, a3),
        election_step(s3, e3, own, s4, e4, a4),
        election_step(s4, e4, own, s5, e5, a5),
    ensures
        a1 matches ElectionAction::Send(msgs) && tells_peers(
            msgs@,
            s0.peer_servers@,
            own,
            asks_with(
                if s0.running_elections@.contains_key(e0.req_id@) {
                    s0.running_elections@[e0.req_id@]
                } else {
                    e0.measured
                },
            ),
            e0.req_id@,
        ),
        a2 is WaitForOks,
        a3 matches ElectionAction::Broadcast(msgs) && tells_peers(
            msgs@,
            s0.peer_servers@,
            own,
            announces(own.text()),
            e0.req_id@,
        ),
        a4 matches ElectionAction::Reply(reply) && (reply is Some
            <==> s0.requests_buffer@.contains_key(e0.req_id@)) && (reply matches Some(r) ==> r.0@
            == s0.requests_buffer@[e0.req_id@].sender@ && r.1@ == (s0.own_ips->0).0@.text()),
        a5 is Done,
        s5.forgets(s0, e0.req_id@),
{
    let id = e0.req_id@;
    assert(s0.elections_initiated_by_me@.insert(id).remove(id)
        == s0.elections_initiated_by_me@.remove(id));
    assert(s1.running_elections@.remove(id) == s0.running_elections@.remove(id));
}

/// Once a peer has answered, a server neither announces itself nor replies to
/// the client: the election is over for it, and what it knows stays.
pub proof fn law_answered_election_is_left(
    own: AddrView,
    before: &ServerStats,
    e: &Election,
    after: &ServerStats,
    next: &Election,
    action: &ElectionAction,
)
    requires
        e.phase == ElectionPhase::Deciding,
        before.elections_received_oks@.contains(e.req_id@),
        election_step(before, e, own, after, next, action),
    ensures
        action is Done,
        next.phase == ElectionPhase::Over,
        after.same(before),
{
}

// ---------------------------------------------------------------------------
// Requests at a server
// ---------------------------------------------------------------------------

/// A request that comes in again changes nothing: the message that came first
/// is kept.
pub proof fn law_first_request_is_kept(
    s0: &ServerStats,
    id: u32,
    first: Msg,
    s1: &ServerStats,
    t1: &ClientTurn,
    again: Msg,
    s2: &ServerStats,
    t2: &ClientTurn,
)
    requires
        first.sender@ == again.sender@,
        client_turn(s0, id, first, s1, t1),
        client_turn(s1, id, again, s2, t2),
    ensures
        t2.req_id@ == t1.req_id@,
        s2.same(s1),
        s2.requests_buffer@.contains_key(t1.req_id@),
        !s0.requests_buffer@.contains_key(t1.req_id@) ==> s2.requests_buffer@[t1.req_id@] == first,
{
}

/// A request that is forgotten leaves no trace, and no other request is
/// touched.
pub proof fn law_forgotten_request_leaves_no_trace(
    before: &ServerStats,
    after: &ServerStats,
    req_id: Seq<char>,
    other: Seq<char>,
)
    requires
        after.forgets(before, req_id),
        other != req_id,
    ensures
        !after.elections_initiated_by_me@.contains(req_id),
        !after.elections_received_oks@.contains(req_id),
        !after.running_elections@.contains_key(req_id),
        !after.requests_buffer@.contains_key(req_id),
        after.elections_initiated_by_me@.contains(other)
            == before.elections_initiated_by_me@.contains(other),
        after.elections_received_oks@.contains(other) == before.elections_received_oks@.contains(
            other,
        ),
        after.running_elections@.contains_key(other) == before.running_elections@.contains_key(
            other,
        ),
        after.running_elections@.contains_key(other) ==> after.running_elections@[other]
            == before.running_elections@[other],
        after.requests_buffer@.contains_key(other) == before.requests_buffer@.contains_key(other),
        after.requests_buffer@.contains_key(other) ==> after.requests_buffer@[other]
            == before.requests_buffer@[other],
{
}

/// A client and the servers give a request the same name: the one under which
/// the client sends its picture is the one under which the servers elect.
pub proof fn law_request_names_agree(
    client: &ClientBackend,
    job: &EncryptionJob,
    server: AddrView,
    msg: Msg,
    before: &ServerStats,
    after: &ServerStats,
    turn: &ClientTurn,
)
    requires
        job.msg_id@ == request_id_of(client.cloud_addr@, job.id),
        is_plain(&msg, client.cloud_addr@, server),
        msg.msg_type == Type::ClientRequest(job.id),
        client_turn(before, job.id, msg, after, turn),
    ensures
        turn.req_id@ == job.msg_id@,
{
}

/// Requests with different numbers, or from clients whose addresses are shown
/// differently, have different names.
pub proof fn law_requests_have_different_names(a: AddrView, i: u32, b: AddrView, j: u32)
    requires
        request_id_of(a, i) == request_id_of(b, j),
    ensures
        i == j,
        a.text() == b.text(),
{
    lemma_no_colon(i);
    lemma_no_colon(j);
    lemma_split_last(a.text(), ':', decimal(i as nat));
    lemma_split_last(b.text(), ':', decimal(j as nat));
    lemma_decimal(i as nat);
    lemma_decimal(j as nat);
    let whole = request_id_of(a, i);
    let end = whole.len() - decimal(i as nat).len() - 1;
    assert(whole.take(end) == a.text());
    assert(whole.take(end) == b.text());
}

/// Whether the host of an address is written as hosts are: with digits and
/// dots, or without the sign that a scope begins with.
pub open spec fn has_plain_host(a: AddrView) -> bool {
    match a {
        AddrView::V4 { ip, port } => forall|k: int|
            0 <= k < ip.len() ==> is_digit(#[trigger] ip[k]) || ip[k] == '.',
        AddrView::V6 { ip, port, flowinfo, scope_id } => !ip.contains('%'),
    }
}

/// What is shown of the host of an address, with its scope and brackets.
spec fn shown_host(a: AddrView) -> Seq<char> {
    match a {
        AddrView::V4 { ip, port } => ip,
        AddrView::V6 { ip, port, flowinfo, scope_id } => {
            seq!['['] + with_scope(ip, scope_id) + seq![']']
        },
    }
}

/// Addresses that are shown alike are the same, but for a flow label.
pub proof fn law_addresses_are_shown_differently(a: AddrView, b: AddrView)
    requires
        has_plain_host(a),
        has_plain_host(b),
        a.text() == b.text(),
    ensures
        match (a, b) {
            (AddrView::V4 { .. }, AddrView::V4 { .. }) => a == b,
            (
                AddrView::V6 { ip: ip1, port: port1, flowinfo: _, scope_id: scope1 },
                AddrView::V6 { ip: ip2, port: port2, flowinfo: _, scope_id: scope2 },
            ) => ip1 == ip2 && port1 == port2 && scope1 == scope2,
            _ => false,
        },
{
    let host1 = shown_host(a);
    let host2 = shown_host(b);
    let port1 = decimal(a.port() as nat);
    let port2 = decimal(b.port() as nat);
    assert(a.text() == host1 + seq![':'] + port1);
    assert(b.text() == host2 + seq![':'] + port2);
    lemma_no_colon(a.port() as u32);
    lemma_no_colon(b.port() as u32);
    lemma_split_last(host1, ':', port1);
    lemma_split_last(host2, ':', port2);
    lemma_decimal(a.port() as nat);
    lemma_decimal(b.port() as nat);
    let end = a.text().len() - port1.len() - 1;
    assert(a.text().take(end) == host1);
    assert(b.text().take(end) == host2);
    match (a, b) {
        (AddrView::V4 { .. }, AddrView::V4 { .. }) => {},
        (
            AddrView::V6 { ip: ip1, scope_id: scope1, .. },
            AddrView::V6 { ip: ip2, scope_id: scope2, .. },
        ) => {
            let inner = host1.subrange(1, host1.len() - 1);
            assert(inner == with_scope(ip1, scope1));
            assert(inner == with_scope(ip2, scope2));
            lemma_scope(ip1, scope1, ip2, scope2);
        },
        _ => {
            assert(host1[0] == host2[0]);
            assert(host1[0] == '[');
        },
    }
}

/// A host with its scope, if it has one.
spec fn with_scope(ip: Seq<char>, scope_id: u32) -> Seq<char> {
    ip + if scope_id == 0 {
        Seq::empty()
    } else {
        seq!['%'] + decimal(scope_id as nat)
    }
}

/// Hosts that are shown alike with their scopes are the same, with the same
/// scope.
proof fn lemma_scope(ip1: Seq<char>, scope1: u32, ip2: Seq<char>, scope2: u32)
    requires
        !ip1.contains('%'),
        !ip2.contains('%'),
        with_scope(ip1, scope1) == with_scope(ip2, scope2),
    ensures
        ip1 == ip2,
        scope1 == scope2,
{
    lemma_host_of(ip1, scope1);
    lemma_host_of(ip2, scope2);
    lemma_decimal(scope1 as nat);
    lemma_decimal(scope2 as nat);
    let inner = with_scope(ip1, scope1);
    if scope1 != 0 {
        assert(inner.skip(ip1.len() as int) == seq!['%'] + decimal(scope1 as nat));
        assert(inner.skip(ip1.len() as int).skip(1) == decimal(scope1 as nat));
    }
    if scope2 != 0 {
        assert(inner.skip(ip2.len() as int) == seq!['%'] + decimal(scope2 as nat));
        assert(inner.skip(ip2.len() as int).skip(1) == decimal(scope2 as nat));
    }
    if scope1 == 0 {
        assert(inner.len() == ip1.len());
    }
    if scope2 == 0 {
        assert(inner.len() == ip2.len());
    }
}

/// The host is what stands before the scope.
proof fn lemma_host_of(ip: Seq<char>, scope_id: u32)
    requires
        !ip.contains('%'),
    ensures
        split_at_each(with_scope(ip, scope_id), '%')[0] == ip,
{
    if scope_id == 0 {
        assert(with_scope(ip, scope_id) == ip);
        lemma_split_none(ip, '%');
    } else {
        assert(with_scope(ip, scope_id) == ip + seq!['%'] + decimal(scope_id as nat));
        lemma_split_first(ip, '%', decimal(scope_id as nat));
    }
}

/// Decimal numbers hold no colon.
proof fn lemma_no_colon(n: u32)
    ensures
        !decimal(n as nat).contains(':'),
{
    lemma_decimal(n as nat);
    let text = decimal(n as nat);
    assert forall|k: int| 0 <= k < text.len() implies text[k] != ':' by {
        assert(is_digit(text[k]));
    }
}

/// A server that fails is down while it sleeps. When it wakes up it is up
/// again, tells one peer to fail, and then asks all its peers first for the
/// directory of clients and then for the pending updates, each once. None of
/// that changes what else it knows, and the order does not depend on what it
/// hears in between.
pub proof fn law_failed_server_recovers(
    own: AddrView,
    s1: &ServerStats,
    f1: &Failure,
    t1: &ServerStats,
    f2: &Failure,
    a1: &FailureAction,
    s2: &ServerStats,
    t2: &ServerStats,
    f3: &Failure,
    a2: &FailureAction,
    s3: &ServerStats,
    t3: &ServerStats,
    f4: &Failure,
    a3: &FailureAction,
    s4: &ServerStats,
    t4: &ServerStats,
    f5: &Failure,
    a4: &FailureAction,
    s5: &ServerStats,
    t5: &ServerStats,
    f6: &Failure,
    a5: &FailureAction,
)
    requires
        f1.phase == FailurePhase::Told,
        failure_step(s1, f1, own, t1, f2, a1),
        failure_step(s2, f2, own, t2, f3, a2),
        failure_step(s3, f3, own, t3, f4, a3),
        failure_step(s4, f4, own, t4, f5, a4),
        failure_step(s5, f5, own, t5, f6, a5),
    ensures
        a1 matches FailureAction::Sleep(time) && time == f1.seconds,
        t1.down && t1.same_but_down(s1),
        a2 matches FailureAction::Send(msg) && tells_one_to_fail(&msg, own, s2.peer_servers@),
        !t2.down && t2.same_but_down(s2),
        a3 matches FailureAction::QueryDirectory(peers) && peers@ == s3.peer_servers@,
        t3.same(s3),
        a4 matches FailureAction::QueryPending(peers) && peers@ == s4.peer_servers@,
        t4.same(s4),
        a5 is Done,
        t5.same(s5),
{
}

/// Of several elections of others about one request, each that is lower is
/// answered, and only the first such one opens an election of this server's
/// own; none does where it has opened one before.
pub proof fn law_one_election_is_opened(
    states: Seq<ServerStats>,
    heard: Seq<(Priority, AddrView, Priority)>,
    turns: Seq<ElectionTurn>,
    req_id: Seq<char>,
    own: AddrView,
    i: int,
    j: int,
)
    requires
        states.len() == turns.len() + 1,
        heard.len() == turns.len(),
        forall|k: int|
            0 <= k < turns.len() ==> election_turn(
                &states[k],
                heard[k].0,
                req_id,
                heard[k].1,
                own,
                heard[k].2,
                &states[k + 1],
                #[trigger] &turns[k],
            ),
        0 <= i < j < turns.len(),
    ensures
        turns[i].ok is Some ==> !turns[j].opens,
        states[0].elections_initiated_by_me@.contains(req_id) ==> !turns[i].opens,
        (forall|k: int| 0 <= k < i ==> (#[trigger] turns[k]).ok is None)
            && !states[0].elections_initiated_by_me@.contains(req_id) ==> turns[i].opens
            == turns[i].ok is Some,
{
    lemma_initiated_stays(states, heard, turns, req_id, own, 0, i);
    assert(election_turn(
        &states[i],
        heard[i].0,
        req_id,
        heard[i].1,
        own,
        heard[i].2,
        &states[i + 1],
        &turns[i],
    ));
    lemma_initiated_stays(states, heard, turns, req_id, own, i + 1, j);
    assert(election_turn(
        &states[j],
        heard[j].0,
        req_id,
        heard[j].1,
        own,
        heard[j].2,
        &states[j + 1],
        &turns[j],
    ));
}

/// A request that this server has asked its peers about stays so, and becomes
/// so only with an answer.
proof fn lemma_initiated_stays(
    states: Seq<ServerStats>,
    heard: Seq<(Priority, AddrView, Priority)>,
    turns: Seq<ElectionTurn>,
    req_id: Seq<char>,
    own: AddrView,
    from: int,
    to: int,
)
    requires
        states.len() == turns.len() + 1,
        heard.len() == turns.len(),
        forall|k: int|
            0 <= k < turns.len() ==> election_turn(
                &states[k],
                heard[k].0,
                req_id,
                heard[k].1,
                own,
                heard[k].2,
                &states[k + 1],
                #[trigger] &turns[k],
            ),
        0 <= from <= to <= turns.len(),
    ensures
        states[from].elections_initiated_by_me@.contains(req_id)
            ==> states[to].elections_initiated_by_me@.contains(req_id),
        (forall|k: int| from <= k < to ==> (#[trigger] turns[k]).ok is None) ==> (
        states[to].elections_initiated_by_me@.contains(req_id)
            == states[from].elections_initiated_by_me@.contains(req_id)),
    decreases to - from,
{
    if from < to {
        lemma_initiated_stays(states, heard, turns, req_id, own, from, to - 1);
        let k = to - 1;
        assert(election_turn(
            &states[k],
            heard[k].0,
            req_id,
            heard[k].1,
            own,
            heard[k].2,
            &states[k + 1],
            &turns[k],
        ));
    }
}

/// The peers of a server are the other servers, and all of them.
pub proof fn law_peers_are_the_others(known: Seq<Ips<SocketAddr>>, own: AddrView)
    ensures
        forall|i: int|
            0 <= i < known.filter(is_peer(own)).len() ==> service_of(
                #[trigger] known.filter(is_peer(own))[i],
            ) != own && known.contains(known.filter(is_peer(own))[i]),
        forall|i: int|
            0 <= i < known.len() && service_of(#[trigger] known[i]) != own ==> known.filter(
                is_peer(own),
            ).contains(known[i]),
{
    broadcast use {Seq::lemma_filter_pred, Seq::lemma_filter_contains, Seq::lemma_filter_contains_rev};

    let peers = known.filter(is_peer(own));
    assert forall|i: int| 0 <= i < peers.len() implies service_of(#[trigger] peers[i]) != own
        && known.contains(peers[i]) by {
        assert(is_peer(own)(peers[i]));
        assert(peers.contains(peers[i]));
    }
    assert forall|i: int| 0 <= i < known.len() && service_of(#[trigger] known[i]) != own implies
        peers.contains(known[i]) by {
        assert(is_peer(own)(known[i]));
    }
}

// ---------------------------------------------------------------------------
// Talking to the cloud
// ---------------------------------------------------------------------------

/// The number of the next request survives the end of the program: what is
/// written at the end is read back at the next start.
pub proof fn law_saved_number_is_read_back(n: u32)
    ensures
        logged_req_id(Some(decimal(n as nat))) == n,
{
    lemma_decimal_read_back(n);
}

/// The address that a server sends as text is the one the client reads.
pub proof fn law_server_address_arrives(text: Seq<char>, bytes: Vec<u8>)
    requires
        bytes@ == encode_utf8(text),
    ensures
        choice_text(ChoiceEvent::Received(bytes)) == Some(text),
{
    encode_utf8_valid_utf8(text);
    encode_utf8_decode_utf8(text);
}

/// Whether the encryption is on its way with a client that had the number
/// `start` at its beginning: each picture that has begun has used one number,
/// and the work at hand is on the picture that began last.
pub open spec fn on_its_way(run: &EncryptionRun, client: &ClientBackend, start: int) -> bool {
    let last = run.next - 1;
    &&& run.well_formed()
    &&& client.next_req_id == start + run.next
    &&& match run.phase {
        EncryptionPhase::Ready => true,
        EncryptionPhase::Choosing(rounds, job) => run.next > 0 && job.encrypts(
            client,
            run.pictures@[last]@,
            start + last,
        ),
        EncryptionPhase::Encrypting(job) => run.next > 0 && job.encrypts(
            client,
            run.pictures@[last]@,
            start + last,
        ),
    }
}

/// Pictures are encrypted in turn. The one at position `k` has the number
/// `start + k`, whatever becomes of those before it, and what is saved is
/// saved under the name of the picture that was sent. At the end each picture
/// has used one number, and nothing else in the client has changed.
pub proof fn law_pictures_are_encrypted_in_turn(
    start: int,
    before: &ClientBackend,
    run: &EncryptionRun,
    event: EncryptionEvent,
    after: &ClientBackend,
    next: &EncryptionRun,
    step: &EncryptionStep,
)
    requires
        on_its_way(run, before, start),
        run.accepts(event),
        encryption_step(before, run, event, after, next, step),
    ensures
        on_its_way(next, after, start),
        step matches EncryptionStep::Send(msgs) ==> forall|i: int|
            0 <= i < msgs@.len() ==> (#[trigger] msgs@[i]).msg_type == Type::ClientRequest(
                (start + run.next) as u32,
            ),
        step matches EncryptionStep::SendPicture(server, source, msg_id) ==> {
            let name = file_name_of(run.pictures@[run.next - 1]@)->0;
            &&& source@ == path_of(before.paths.high_res@, name)
            &&& msg_id@ == request_id_of(before.cloud_addr@, (start + run.next - 1) as u32)
        },
        step matches EncryptionStep::Save(image, file) ==> {
            let name = file_name_of(run.pictures@[run.next - 1]@)->0;
            file@ == path_of(before.paths.encrypted@, stem_of(name) + ".png"@)
        },
        step is Send ==> after.uses_number(before),
        !(step is Send) ==> *after == *before,
        step is Done ==> run.next == run.pictures@.len() && after.next_req_id == start
            + run.pictures@.len(),
{
}

/// Waiting ends with the first reply that comes within the rounds, without a
/// result where all rounds bring none, and not before.
pub proof fn law_first_reply_counts<T>(left: int, replies: Seq<Option<Option<T>>>, k: int)
    requires
        left > 0,
        0 <= k <= replies.len(),
        forall|i: int| 0 <= i < k ==> (#[trigger] replies[i]) is None,
    ensures
        k < left && k < replies.len() && replies[k] is Some ==> after_rounds(left, replies)
            == Wait::Finished(replies[k]->0),
        k >= left ==> after_rounds(left, replies) == Wait::<T>::Finished(None),
        k < left && k == replies.len() ==> after_rounds(left, replies) == Wait::<T>::Again,
    decreases replies.len(),
{
    if replies.len() > 0 && k > 0 && left > 1 {
        let rest = replies.skip(1);
        assert forall|i: int| 0 <= i < k - 1 implies (#[trigger] rest[i]) is None by {
            assert(rest[i] == replies[i + 1]);
        }
        law_first_reply_counts(left - 1, rest, k - 1);
    }
}

// ---------------------------------------------------------------------------
// Shared pictures
// ---------------------------------------------------------------------------

/// A picture with so many views can be viewed that often and no more, and
/// apart from that number viewing changes nothing in it.
pub proof fn law_views_run_out(pictures: Seq<Image>, next: Option<Image>)
    requires
        pictures.len() > 0,
        pictures[0].has_pixels(),
        forall|i: int|
            0 <= i < pictures.len() - 1 ==> takes_view(
                #[trigger] pictures[i],
                Some(pictures[i + 1]),
            ),
        takes_view(pictures.last(), next),
    ensures
        pictures.len() - 1 <= pictures[0].access_spec(),
        has_left(
            pictures[0],
            pictures.last(),
            (pictures[0].access_spec() - (pictures.len() - 1)) as u8,
        ),
        next is None <==> pictures.len() - 1 == pictures[0].access_spec(),
    decreases pictures.len(),
{
    let first = pictures[0];
    let end = Image::byte_count(first.dims) - 1;
    lemma_room_for_views(first);
    if pictures.len() == 1 {
        assert(first.data@.update(end, first.access_spec()) == first.data@);
    } else {
        let fewer = pictures.drop_last();
        assert forall|i: int| 0 <= i < fewer.len() - 1 implies takes_view(
            #[trigger] fewer[i],
            Some(fewer[i + 1]),
        ) by {
            assert(fewer[i] == pictures[i]);
            assert(fewer[i + 1] == pictures[i + 1]);
        }
        let n = pictures.len() - 2;
        assert(takes_view(pictures[n], Some(pictures[n + 1])));
        assert(fewer.last() == pictures[n]);
        law_views_run_out(fewer, Some(pictures.last()));
        let one = fewer.last();
        let left = pictures.last().access_spec();
        assert(first.data@.update(end, one.access_spec()).update(end, left) == first.data@.update(
            end,
            left,
        ));
    }
}

/// A picture that is shared can be viewed as often as was granted, and no more.
/// Where it has room for the number that was asked for, that number is granted.
pub proof fn law_shared_picture_allows_the_views_granted(
    original: Image,
    requested_access: u32,
    pictures: Seq<Image>,
    next: Option<Image>,
)
    requires
        pictures.len() > 0,
        has_left(original, pictures[0], granted_views(requested_access)),
        forall|i: int|
            0 <= i < pictures.len() - 1 ==> takes_view(
                #[trigger] pictures[i],
                Some(pictures[i + 1]),
            ),
        takes_view(pictures.last(), next),
    ensures
        pictures.len() - 1 <= granted_views(requested_access),
        next is None <==> pictures.len() - 1 == granted_views(requested_access),
        requested_access <= u8::MAX ==> granted_views(requested_access) == requested_access,
{
    law_views_run_out(pictures, next);
}

/// A picture that has pixels has room for the number of views.
proof fn lemma_room_for_views(image: Image)
    requires
        image.has_pixels(),
    ensures
        0 <= Image::byte_count(image.dims) - 1 < image.data@.len(),
{
    assert(4 * image.dims.0 * image.dims.1 >= 4) by (nonlinear_arith)
        requires
            image.dims.0 > 0,
            image.dims.1 > 0,
    ;
}

/// A picture whose views are revoked cannot be viewed any more.
pub proof fn law_revoked_picture_is_closed(image: Image, revoked: Option<Image>, viewed: Option<
    Image,
>)
    requires
        takes_update(image, Action::Revoke, revoked),
        takes_view(revoked->0, viewed),
    ensures
        revoked is Some,
        viewed is None,
{
}

/// Views that are added and then taken away again leave the number as it was.
pub proof fn law_decrement_undoes_increment(access: u8, n: u32)
    requires
        access_after(access, Action::Increment(n)) is Some,
    ensures
        access_after(
            access_after(access, Action::Increment(n))->0,
            Action::Decrement(n),
        ) == Some(access),
{
}

/// Views can always be taken away, and the number never grows by it. Where as
/// many are taken away as there are, none is left.
pub proof fn law_decrement_never_adds(access: u8, n: u32)
    ensures
        access_after(access, Action::Decrement(n)) is Some,
        access_after(access, Action::Decrement(n))->0 <= access,
        n >= access ==> access_after(access, Action::Decrement(n)) == Some(0u8),
{
}

/// A picture that was asked for is sent once and then recorded. The views that
/// the picture allows are those that the message tells and the record holds.
/// Where there is no such picture nothing is sent, and what the client has
/// recorded stays, whatever steps follow.
pub proof fn law_picture_asked_for_is_shared_or_missing(
    peer: AddrView,
    c0: &ClientBackend,
    img_name: String,
    access: u32,
    image: Option<Image>,
    c1: &ClientBackend,
    next: Sharing,
    step1: &SharingStep,
    ignored: Option<Image>,
    c2: &ClientBackend,
    end: Sharing,
    step2: &SharingStep,
)
    requires
        sharing_step(c0, Sharing::Asked(img_name, access), peer, image, c1, next, step1),
        sharing_step(c1, next, peer, ignored, c2, end, step2),
    ensures
        step1 is Send <==> image is Some,
        step2 is Done,
        end is Over,
        image is None ==> *c2 == *c0,
        image is Some ==> c2.gives(
            c0,
            peer,
            image_id_of(c0.client_addr@.text(), peer.text(), png_name(img_name@)),
            granted_views(access) as u32,
        ),
        step1 matches SharingStep::Send(msg, pic_id) ==> {
            &&& msg.msg_type matches Type::SharedImage(name, sent, told) && sent.access_spec()
                == told && told == granted_views(access)
            &&& pic_id@ == image_id_of(
                c0.client_addr@.text(),
                peer.text(),
                png_name(img_name@),
            )
        },
{
}

/// The client that a picture is shared with stores it as it was sent, and
/// records it under the name under which its owner records it, with the views
/// that it allows.
pub proof fn law_shared_picture_arrives(
    owner: &ClientBackend,
    img_name: String,
    access: u32,
    image: Option<Image>,
    after: &ClientBackend,
    next: Sharing,
    msg: Msg,
    pic_id: String,
    peer: &ClientBackend,
    peer_after: &ClientBackend,
    received: Option<(Target, Option<Image>)>,
)
    requires
        sharing_step(
            owner,
            Sharing::Asked(img_name, access),
            peer.client_addr@,
            image,
            after,
            next,
            &SharingStep::Send(msg, pic_id),
        ),
        takes_complete_msg(
            peer,
            pic_id@,
            Some(msg),
            owner.client_addr@,
            peer_after,
            received,
        ),
    ensures
        image is Some,
        received matches Some((target, stored)) && {
            &&& stored matches Some(picture) && picture.dims == image->0.dims
                && picture.data@ == image->0.data@.update(
                Image::byte_count(image->0.dims) - 1,
                granted_views(access),
            )
            &&& target.file@ == path_of(
                path_of(peer.paths.encrypted@, owner.client_addr@.text()),
                file_part(pic_id@),
            )
        },
        next matches Sharing::Sent(id, views) && id@ == pic_id@ && peer_after.receives(
            peer,
            owner.client_addr@,
            id@,
            views as u32,
        ),
{
}

/// Once the number of views of a received picture is recorded, its owner's
/// list gives that number for it, and the lists of all others stay.
pub proof fn law_recorded_views_are_listed(
    before: &ClientBackend,
    after: &ClientBackend,
    owner: AddrView,
    id: Seq<char>,
    access: u32,
    other: AddrView,
)
    requires
        after.receives(before, owner, id, access),
        other != owner,
    ensures
        ({
            let list = after.received_shared_imgs.list(owner);
            let i = first_index(names(list), id);
            i < list.len() && list[i] == (id, access)
        }),
        after.received_shared_imgs.list(other) == before.received_shared_imgs.list(other),
{
    lemma_granted(before.received_shared_imgs.list(owner), id, access);
}

/// An update that waited in the cloud names the same picture as one that comes
/// from the owner directly, and tells who the owner is.
pub proof fn law_pending_update_names_the_picture(
    owner: Seq<char>,
    client: AddrView,
    name: Seq<char>,
    kept: (String, Action),
    update: PendingUpdate,
)
    requires
        !owner.contains('&'),
        !name.contains('&'),
        kept.0@ == owner + seq!['&'] + name,
        is_pending_update(update, kept, client),
    ensures
        update.owner@ == owner,
        update.img_id@ == image_id_of(owner, client.text(), name),
        update.action == kept.1,
{
    lemma_split_first(owner, '&', name);
    lemma_split_none(name, '&');
    let parts = split_at_each(kept.0@, '&');
    assert(parts == seq![owner] + seq![name]);
    assert(parts[0] == owner);
    assert(parts[1] == name);
}

/// Pictures whose owners, peers or file names differ have different names.
pub proof fn law_pictures_have_different_names(
    owner1: Seq<char>,
    peer1: Seq<char>,
    name1: Seq<char>,
    owner2: Seq<char>,
    peer2: Seq<char>,
    name2: Seq<char>,
)
    requires
        !owner1.contains('&'),
        !peer1.contains('&'),
        !name1.contains('&'),
        !owner2.contains('&'),
        !peer2.contains('&'),
        !name2.contains('&'),
        image_id_of(owner1, peer1, name1) == image_id_of(owner2, peer2, name2),
    ensures
        owner1 == owner2,
        peer1 == peer2,
        name1 == name2,
{
    lemma_image_id_parts(owner1, peer1, name1);
    lemma_image_id_parts(owner2, peer2, name2);
    let parts1 = seq![owner1, peer1, name1];
    let parts2 = seq![owner2, peer2, name2];
    assert(parts1[0] == parts2[0] && parts1[1] == parts2[1] && parts1[2] == parts2[2]);
}

/// A picture is shared from the file in which its encryption was saved, where
/// its file name has no dot but the one before its ending.
pub proof fn law_encrypted_picture_can_be_shared(dir: Seq<char>, name: Seq<char>)
    requires
        !stem_of(name).contains('.'),
    ensures
        path_of(dir, png_name(name)) == path_of(dir, stem_of(name) + ".png"@),
{
    let i = find_last(name, '.');
    lemma_find_last(name, '.');
    if i <= 0 {
        lemma_split_none(name, '.');
    } else {
        assert(name == name.take(i) + seq!['.'] + name.skip(i + 1));
        lemma_split_first(name.take(i), '.', name.skip(i + 1));
    }
}

/// A shared picture is stored where a view and an update look for it: all
/// three name the file by the picture's file name, in the owner's directory.
pub proof fn law_stored_picture_is_found(
    dir: Seq<char>,
    owner: Seq<char>,
    peer: Seq<char>,
    name: Seq<char>,
)
    requires
        !name.contains('&'),
    ensures
        path_of(path_of(dir, owner), file_part(image_id_of(owner, peer, name))) == path_of(
            path_of(dir, owner),
            name,
        ),
{
    lemma_image_id_name(owner, peer, name);
}

} // verus!
