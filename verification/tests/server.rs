use cloud_p2p_images::address::SocketAddr;
use cloud_p2p_images::message::{Action, Msg, Type};
use cloud_p2p_images::priority::Priority;
use cloud_p2p_images::server::{
    broadcast_coordinator, default_image, handle_service_msg, ClientTurn, ElecTask, Election,
    ElectionAction, ElectionPhase, ElectionTurn, Failure, FailureAction, FailurePhase, ServerIps, ServerStats, ServiceTask, ANSWER_TIME, FAIL_TIME,
    MAX_WAIT, MIN_WAIT,
};

fn addr(port: u16) -> SocketAddr {
    SocketAddr::V4 { ip: String::from("127.0.0.1"), port }
}

fn ips(port: u16) -> ServerIps {
    (addr(port), addr(port + 1), addr(port + 2))
}

fn priority(value: f32) -> Priority {
    Priority { bits: value.to_bits() }
}

fn message(sender: u16, receiver: u16, msg_type: Type, payload: Option<&str>) -> Msg {
    Msg {
        sender: addr(sender),
        receiver: addr(receiver),
        msg_type,
        payload: payload.map(String::from),
    }
}

/// A server at ports 5000 to 5002 with peers at 6000 and 7000.
fn server() -> ServerStats {
    let mut stats = ServerStats::new();
    stats.own_ips = Some(ips(5000));
    stats.peer_servers = vec![ips(6000), ips(7000)];
    stats
}

/// Whether the server at port `own` answers the election of that at port `src`.
fn answers(stats: &mut ServerStats, p: f32, src: u16, own: u16, measured: f32) -> bool {
    let turn = stats.handle_election(priority(p), "r", &addr(src), &addr(own), priority(measured));
    turn.ok.is_some()
}

fn request(stats: &mut ServerStats, id: u32) -> ClientTurn {
    stats.handle_client(id, message(900, 5001, Type::ClientRequest(id), None))
}

#[test]
fn a_new_server_knows_nothing() {
    let stats = ServerStats::new();
    assert_eq!(stats.running_elections.len(), 0);
    assert_eq!(stats.requests_buffer.len(), 0);
    assert!(stats.get_peer_servers().is_empty());
    assert!(stats.own_ips.is_none());
    assert!(!stats.down);
    assert!(!stats.drops_elections());
}

#[test]
fn peers_are_copied_in_order() {
    assert_eq!(server().get_peer_servers(), vec![ips(6000), ips(7000)]);
}

#[test]
fn requests_are_named_by_client_and_number() {
    let mut stats = server();
    let turn = request(&mut stats, 12);
    assert_eq!(turn.req_id, "127.0.0.1:900:12");
    assert!(stats.requests_buffer.contains_key("127.0.0.1:900:12"));
    let wait = turn.wait.unwrap();
    assert!(MIN_WAIT <= wait && wait < MAX_WAIT);
}

#[test]
fn waits_are_spread_over_the_whole_range() {
    let mut seen = [false; 30];
    for _ in 0..2000 {
        let mut stats = server();
        seen[request(&mut stats, 1).wait.unwrap() as usize] = true;
    }
    assert!(seen[..10].iter().all(|s| !s));
    assert!(seen[10..].iter().filter(|s| **s).count() > 15);
}

#[test]
fn the_first_request_of_a_name_is_kept() {
    let mut stats = server();
    let first = message(900, 5001, Type::ClientRequest(1), Some("first"));
    let again = message(900, 5001, Type::ClientRequest(1), Some("again"));
    stats.handle_client(1, first);
    stats.handle_client(1, again);
    let kept = stats.requests_buffer.get("127.0.0.1:900:1").unwrap();
    assert_eq!(kept.payload, Some(String::from("first")));
    assert_eq!(stats.requests_buffer.len(), 1);
}

#[test]
fn a_request_under_election_does_not_wait() {
    let mut stats = server();
    stats.enter("127.0.0.1:900:1", priority(3.0));
    assert_eq!(
        request(&mut stats, 1),
        ClientTurn { req_id: String::from("127.0.0.1:900:1"), wait: None }
    );
    assert!(!stats.opens_election("127.0.0.1:900:1"));
    assert!(stats.opens_election("127.0.0.1:900:2"));
}

#[test]
fn a_server_enters_an_election_once() {
    let mut stats = server();
    assert_eq!(stats.enter("r", priority(3.0)), priority(3.0));
    assert_eq!(stats.enter("r", priority(9.0)), priority(3.0));
    assert_eq!(stats.running_elections.get("r"), Some(&priority(3.0)));
}

#[test]
fn the_higher_priority_wins() {
    let mut stats = server();
    assert!(answers(&mut stats, 2.0, 6001, 5001, 3.0));
    assert!(!answers(&mut stats, 4.0, 7001, 5001, 9.0));
    assert_eq!(stats.running_elections.get("r"), Some(&priority(3.0)));
}

#[test]
fn between_equal_priorities_the_address_decides() {
    let mut stats = server();
    assert!(answers(&mut stats, 3.0, 4001, 5001, 3.0));
    assert!(!answers(&mut stats, 3.0, 6001, 5001, 3.0));
    assert!(!answers(&mut stats, 3.0, 5001, 5001, 3.0));
    // Texts are compared, not numbers.
    assert!(answers(&mut stats, 3.0, 10001, 5001, 3.0));
}

#[test]
fn exactly_one_of_two_candidates_gives_way() {
    for (p, q) in [(1.0, 2.0), (2.0, 1.0), (5.5, 5.5), (-0.0, 0.0)] {
        let mut left = server();
        let mut right = server();
        let l = answers(&mut left, q, 6001, 5001, p);
        let r = answers(&mut right, p, 5001, 6001, q);
        assert_ne!(l, r);
    }
}

#[test]
fn three_servers_have_one_winner() {
    for values in [[1.0, 2.0, 3.0], [3.0, 3.0, 1.0], [2.0, 2.0, 2.0], [-1.0, 0.0, -0.0]] {
        let servers: Vec<(u16, f32)> = vec![(5001, values[0]), (6001, values[1]), (7001, values[2])];
        let mut unanswered = 0;
        for (port, p) in &servers {
            let answered = servers
                .iter()
                .filter(|(other, q)| {
                    other != port && answers(&mut server(), *p, *port, *other, *q)
                })
                .count();
            if answered == 0 {
                unanswered += 1;
            }
        }
        assert_eq!(unanswered, 1);
    }
}

#[test]
fn answers_carry_the_priority() {
    let mut stats = server();
    assert_eq!(stats.send_ok_msg("r", &addr(6001), &addr(5001)), None);
    stats.enter("r", priority(3.0));
    assert_eq!(
        stats.send_ok_msg("r", &addr(6001), &addr(5001)),
        Some(message(5001, 6001, Type::OKMsg(priority(3.0)), Some("r")))
    );
}

#[test]
fn an_election_is_taken_over_once() {
    let mut stats = server();
    assert!(stats.take_over("r"));
    assert!(!stats.take_over("r"));
    assert!(stats.take_over("s"));
}

#[test]
fn answers_of_peers_are_noted() {
    let mut stats = server();
    assert!(!stats.check_for_oks("r"));
    stats.handle_ok_msg(String::from("r"));
    assert!(stats.check_for_oks("r"));
    assert!(!stats.check_for_oks("s"));
}

#[test]
fn winners_are_announced_to_all_peers() {
    let msgs = broadcast_coordinator(&addr(5001), "127.0.0.1:5001", &server().peer_servers, "r");
    let leader = || Type::CoordinatorBrdCast(String::from("127.0.0.1:5001"));
    assert_eq!(
        msgs,
        vec![
            message(5001, 6001, leader(), Some("r")),
            message(5001, 7001, leader(), Some("r"))
        ]
    );
}

#[test]
fn an_unopposed_server_serves_the_client() {
    let mut stats = server();
    let id = request(&mut stats, 1).req_id;
    let mut election = Election::new(id.clone(), true, priority(8.0));
    let own = addr(5001);
    assert_eq!(
        stats.send_election_msg(&mut election, &own),
        ElectionAction::Send(vec![
            message(5001, 6001, Type::ElectionRequest(priority(8.0)), Some(&id)),
            message(5001, 7001, Type::ElectionRequest(priority(8.0)), Some(&id))
        ])
    );
    assert!(stats.elections_initiated_by_me.contains(&id));
    assert_eq!(stats.running_elections.get(&id), Some(&priority(8.0)));
    assert_eq!(
        stats.send_election_msg(&mut election, &own),
        ElectionAction::WaitForOks(ANSWER_TIME)
    );
    assert_eq!(ANSWER_TIME, 500);
    let leader = || Type::CoordinatorBrdCast(String::from("127.0.0.1:5001"));
    assert_eq!(
        stats.send_election_msg(&mut election, &own),
        ElectionAction::Broadcast(vec![
            message(5001, 6001, leader(), Some(&id)),
            message(5001, 7001, leader(), Some(&id))
        ])
    );
    assert_eq!(
        stats.send_election_msg(&mut election, &own),
        ElectionAction::Reply(Some((addr(900), String::from("127.0.0.1:5000"))))
    );
    assert_eq!(stats.send_election_msg(&mut election, &own), ElectionAction::Done);
    assert_eq!(election.phase, ElectionPhase::Over);
    assert!(!stats.elections_initiated_by_me.contains(&id));
    assert!(!stats.running_elections.contains_key(&id));
    assert!(!stats.requests_buffer.contains_key(&id));
    assert_eq!(stats.send_election_msg(&mut election, &own), ElectionAction::Done);
}

#[test]
fn an_answered_server_leaves_the_election() {
    let mut stats = server();
    let id = request(&mut stats, 1).req_id;
    let mut election = Election::new(id.clone(), true, priority(8.0));
    stats.send_election_msg(&mut election, &addr(5001));
    stats.send_election_msg(&mut election, &addr(5001));
    stats.handle_ok_msg(id.clone());
    assert_eq!(stats.send_election_msg(&mut election, &addr(5001)), ElectionAction::Done);
    assert_eq!(election.phase, ElectionPhase::Over);
    assert!(stats.requests_buffer.contains_key(&id));
    assert!(stats.running_elections.contains_key(&id));
}

#[test]
fn a_running_election_is_not_opened_again() {
    let mut stats = server();
    stats.enter("r", priority(3.0));
    let mut election = Election::new(String::from("r"), true, priority(8.0));
    assert_eq!(stats.send_election_msg(&mut election, &addr(5001)), ElectionAction::Done);
    assert!(!stats.elections_initiated_by_me.contains("r"));
    // One that a peer's request started goes on, with the priority known.
    let mut election = Election::new(String::from("r"), false, priority(8.0));
    assert_eq!(
        stats.send_election_msg(&mut election, &addr(5001)),
        ElectionAction::Send(vec![
            message(5001, 6001, Type::ElectionRequest(priority(3.0)), Some("r")),
            message(5001, 7001, Type::ElectionRequest(priority(3.0)), Some("r"))
        ])
    );
}

#[test]
fn a_server_without_the_request_replies_to_nobody() {
    let stats = server();
    assert_eq!(stats.reply_to_client("r"), None);
}

#[test]
fn a_coordinator_ends_everything_about_the_request() {
    let mut stats = server();
    let id = request(&mut stats, 1).req_id;
    let other = request(&mut stats, 2).req_id;
    stats.enter(&id, priority(1.0));
    stats.enter(&other, priority(2.0));
    stats.take_over(&id);
    stats.handle_ok_msg(id.clone());
    stats.handle_coordinator(&id);
    assert!(stats.opens_election(&id));
    assert!(!stats.check_for_oks(&id));
    assert!(stats.take_over(&id));
    assert_eq!(stats.reply_to_client(&id), None);
    assert_eq!(stats.running_elections.get(&other), Some(&priority(2.0)));
    assert_eq!(
        stats.reply_to_client(&other),
        Some((addr(900), String::from("127.0.0.1:5000")))
    );
}

#[test]
fn messages_at_the_election_address() {
    let mut stats = server();
    let mut told = |msg_type: Type, payload: Option<&str>| {
        stats.handle_elec_request(Some(message(6001, 5001, msg_type, payload)))
    };
    assert_eq!(
        told(Type::ElectionRequest(priority(1.0)), Some("r")),
        ElecTask::Election(priority(1.0), String::from("r"))
    );
    assert_eq!(told(Type::ElectionRequest(priority(1.0)), None), ElecTask::MissingPayload);
    assert_eq!(told(Type::CoordinatorBrdCast(String::new()), None), ElecTask::MissingPayload);
    assert_eq!(told(Type::OKMsg(priority(1.0)), None), ElecTask::MissingPayload);
    assert_eq!(told(Type::OKMsg(priority(1.0)), Some("r")), ElecTask::Handled);
    assert_eq!(told(Type::CoordinatorBrdCast(String::new()), Some("q")), ElecTask::Handled);
    assert_eq!(told(Type::Fail(60), None), ElecTask::Fail(60));
    assert_eq!(told(Type::DirOfServQuery, None), ElecTask::ReplyDirectory);
    assert_eq!(
        told(Type::DirOfServQueryReply(vec![(addr(900), true)]), None),
        ElecTask::UpdateDirectory(vec![(addr(900), true)])
    );
    assert_eq!(told(Type::ServerDirOfServQueryPending, None), ElecTask::ReplyPending);
    let pending = || vec![(addr(901), vec![(String::from("o&cat.png"), Action::Revoke)])];
    assert_eq!(
        told(Type::ServerDirOfServQueryPendingReply(pending()), None),
        ElecTask::UpdatePending(pending())
    );
    assert_eq!(told(Type::DirOfServJoin, None), ElecTask::Ignore);
    assert_eq!(told(Type::Fragment, None), ElecTask::Ignore);
    assert_eq!(stats.handle_elec_request(None), ElecTask::Ignore);
    assert!(stats.check_for_oks("r"));
}

#[test]
fn a_client_request_at_the_election_address_is_kept() {
    let mut stats = server();
    let msg = message(900, 5001, Type::ClientRequest(4), None);
    match stats.handle_elec_request(Some(msg)) {
        ElecTask::Client(turn) => assert_eq!(turn.req_id, "127.0.0.1:900:4"),
        other => panic!("{:?}", other),
    }
    assert_eq!(
        stats.requests_buffer.get("127.0.0.1:900:4"),
        Some(&message(900, 5001, Type::ClientRequest(4), None))
    );
}

#[test]
fn an_announcement_ends_the_election_here() {
    let mut stats = server();
    let id = request(&mut stats, 1).req_id;
    stats.enter(&id, priority(1.0));
    let won = Type::CoordinatorBrdCast(String::from("127.0.0.1:6001"));
    stats.handle_elec_request(Some(message(6001, 5001, won, Some(&id))));
    assert!(stats.opens_election(&id));
    assert_eq!(stats.requests_buffer.len(), 0);
}

#[test]
fn a_lower_election_is_answered_and_taken_over_once() {
    let mut stats = server();
    let mut heard = |p: f32, src: u16| {
        stats.handle_election(priority(p), "r", &addr(src), &addr(5001), priority(3.0))
    };
    let ok = |receiver: u16| Some(message(5001, receiver, Type::OKMsg(priority(3.0)), Some("r")));
    assert_eq!(heard(4.0, 6001), ElectionTurn { ok: None, opens: false });
    assert_eq!(heard(2.0, 6001), ElectionTurn { ok: ok(6001), opens: true });
    assert_eq!(heard(1.0, 7001), ElectionTurn { ok: ok(7001), opens: false });
    assert_eq!(heard(2.0, 6001), ElectionTurn { ok: ok(6001), opens: false });
    assert!(stats.elections_initiated_by_me.contains("r"));
}

#[test]
fn a_failing_server_finishes_its_elections() {
    let mut stats = server();
    stats.enter("r", priority(1.0));
    let mut failure = Failure::new(60);
    assert_eq!(stats.handle_fail_msg(&mut failure, &addr(5001)), FailureAction::Sleep(60));
    assert!(stats.down);
    assert!(!stats.drops_elections());
    stats.handle_coordinator("r");
    assert!(stats.drops_elections());
    stats.handle_fail_msg(&mut failure, &addr(5001));
    assert!(!stats.down);
    assert!(!stats.drops_elections());
}

#[test]
fn a_failed_server_recovers() {
    let mut stats = server();
    let id = request(&mut stats, 1).req_id;
    stats.enter(&id, priority(1.0));
    let own = addr(5001);
    let mut failure = Failure::new(5);
    assert_eq!(stats.handle_fail_msg(&mut failure, &own), FailureAction::Sleep(5));
    match stats.handle_fail_msg(&mut failure, &own) {
        FailureAction::Send(msg) => {
            assert!(msg.receiver == addr(6001) || msg.receiver == addr(7001));
            assert_eq!((msg.msg_type, msg.payload), (Type::Fail(60), None));
        }
        other => panic!("{:?}", other),
    }
    assert!(!stats.down);
    assert_eq!(
        stats.handle_fail_msg(&mut failure, &own),
        FailureAction::QueryDirectory(vec![ips(6000), ips(7000)])
    );
    assert_eq!(
        stats.handle_fail_msg(&mut failure, &own),
        FailureAction::QueryPending(vec![ips(6000), ips(7000)])
    );
    assert_eq!(failure.phase, FailurePhase::Over);
    assert_eq!(stats.handle_fail_msg(&mut failure, &own), FailureAction::Done);
    assert_eq!(stats.running_elections.get(&id), Some(&priority(1.0)));
    assert!(stats.requests_buffer.contains_key(&id));
    assert_eq!(stats.get_peer_servers(), vec![ips(6000), ips(7000)]);
    assert_eq!(stats.own_ips, Some(ips(5000)));
}

#[test]
fn a_peer_is_told_to_fail() {
    let stats = server();
    assert_eq!(FAIL_TIME, 60);
    assert_eq!(stats.fail_msg(&addr(5001), 0), message(5001, 6001, Type::Fail(60), None));
    assert_eq!(stats.fail_msg(&addr(5001), 1), message(5001, 7001, Type::Fail(60), None));
    let mut counts = (0, 0);
    for _ in 0..200 {
        match stats.send_fail_msg(&addr(5001)).receiver.port() {
            6001 => counts.0 += 1,
            7001 => counts.1 += 1,
            port => panic!("{}", port),
        }
    }
    assert!(counts.0 > 20 && counts.1 > 20);
}

#[test]
fn messages_at_the_service_address() {
    let told = |msg_type: Type| handle_service_msg(message(900, 5000, msg_type, None));
    assert_eq!(told(Type::Fragment), ServiceTask::ReceiveFragment);
    assert_eq!(
        told(Type::Ack(String::from("m"), 3)),
        ServiceTask::Acknowledge(String::from("m"), 3)
    );
    assert_eq!(told(Type::DirOfServQuery), ServiceTask::ReplyDirectory);
    assert_eq!(told(Type::DirOfServJoin), ServiceTask::Join);
    assert_eq!(told(Type::DirOfServLeave), ServiceTask::Leave);
    assert_eq!(
        told(Type::UpdateAccess(String::from("i"), Action::Revoke)),
        ServiceTask::KeepUpdate(String::from("i"), Action::Revoke)
    );
    assert_eq!(told(Type::ClientDirOfServQueryPending), ServiceTask::ReplyPending);
    assert_eq!(told(Type::DirOfServQueryReply(vec![])), ServiceTask::Ignore);
    assert_eq!(told(Type::ClientRequest(1)), ServiceTask::Ignore);
}

#[test]
fn covers_grow_with_pictures() {
    assert_eq!(default_image(0), "default_images/def1.png");
    assert_eq!(default_image(350_000), "default_images/def1.png");
    assert_eq!(default_image(350_001), "default_images/def2.png");
    assert_eq!(default_image(670_000), "default_images/def2.png");
    assert_eq!(default_image(670_001), "default_images/def3.png");
    assert_eq!(default_image(2_100_001), "default_images/def4.png");
    assert_eq!(default_image(3_000_001), "default_images/def5.png");
    assert_eq!(default_image(9_100_000), "default_images/def5.png");
    assert_eq!(default_image(9_100_001), "default_images/def6.png");
}
