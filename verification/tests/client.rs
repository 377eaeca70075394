use cloud_p2p_images::address::SocketAddr;
use cloud_p2p_images::client::{
    changed_access, grant, AccessUpdate, ChoiceEvent, ClientBackend, ClientTask, CloudQuery,
    EncryptionEvent, EncryptionJob, EncryptionRun, EncryptionStep, PendingUpdate, PicPaths,
    QueryEvent, QueryStep, ReplyEvent, Sharing, SharingStep, Target, Transfer, CHOICE_ROUNDS,
    DIRECTORY_ROUNDS, PENDING_ROUNDS,
};
use cloud_p2p_images::ids::{image_id, request_id};
use cloud_p2p_images::message::{Action, Msg, Type};
use cloud_p2p_images::picture::Image;
use cloud_p2p_images::priority::Priority;
use cloud_p2p_images::server::ServerStats;
use cloud_p2p_images::waiting::{Rounds, Wait};

fn addr(port: u16) -> SocketAddr {
    SocketAddr::V4 { ip: String::from("127.0.0.1"), port }
}

fn client_with_log(log: Option<&str>) -> ClientBackend {
    ClientBackend::new(
        String::from("local"),
        addr(900),
        ClientBackend::address_for_clients(&addr(900)),
        log,
        vec![(addr(5000), addr(5001)), (addr(6000), addr(6001))],
        PicPaths {
            high_res: String::from("high"),
            low_res: String::from("low"),
            encrypted: String::from("enc"),
        },
    )
}

fn client() -> ClientBackend {
    client_with_log(Some("7"))
}

fn picture(access: u8) -> Image {
    Image { dims: (1, 2), data: vec![1, 2, 3, 4, 5, 6, 7, access] }
}

fn plain(sender: u16, receiver: u16, msg_type: Type) -> Msg {
    Msg { sender: addr(sender), receiver: addr(receiver), msg_type, payload: None }
}

/// The message and the name under which a picture is shared.
fn share(
    c: &mut ClientBackend,
    img_name: &str,
    access: u32,
    peer: u16,
    image: Image,
) -> (Msg, String) {
    let mut sharing = Sharing::Asked(text(img_name), access);
    match c.handle_image_request(&mut sharing, &addr(peer), Some(image)) {
        SharingStep::Send(msg, pic_id) => (msg, pic_id),
        other => panic!("{:?}", other),
    }
}

fn text(s: &str) -> String {
    String::from(s)
}

fn listed(c: &ClientBackend, owner: u16) -> Vec<(String, u32)> {
    match c.received_shared_imgs.images(&addr(owner)) {
        Some(list) => list.clone(),
        None => vec![],
    }
}

#[test]
fn a_new_client_reads_its_log() {
    let c = client();
    assert_eq!(c.next_req_id, 7);
    assert_eq!(c.client_addr, addr(901));
    assert_eq!(c.cloud_addr, addr(900));
    assert_eq!(c.mode, "local");
    assert!(c.received_shared_imgs.images(&addr(800)).is_none());
    assert!(c.own_shared_imgs.images(&addr(800)).is_none());
    assert_eq!(client_with_log(None).next_req_id, 0);
    assert_eq!(client_with_log(Some("seven")).next_req_id, 1);
}

#[test]
fn the_next_number_survives_the_end() {
    let mut c = client();
    c.get_next_req_id();
    let written = c.quit();
    assert_eq!(written, "8");
    assert_eq!(client_with_log(Some(&written)).next_req_id, 8);
}

#[test]
fn numbers_are_used_once() {
    let mut c = client();
    assert_eq!((c.get_next_req_id(), c.get_next_req_id(), c.get_next_req_id()), (7, 8, 9));
}

#[test]
fn pending_updates_name_owner_and_picture() {
    let pending = vec![
        (text("127.0.0.1:801&cat.png"), Action::Increment(2)),
        (text("127.0.0.1:802&dog.png&more"), Action::Revoke),
    ];
    assert_eq!(
        client().init(&pending),
        vec![
            PendingUpdate {
                img_id: text("127.0.0.1:801&127.0.0.1:901&cat.png"),
                owner: text("127.0.0.1:801"),
                action: Action::Increment(2)
            },
            PendingUpdate {
                img_id: text("127.0.0.1:802&127.0.0.1:901&dog.png"),
                owner: text("127.0.0.1:802"),
                action: Action::Revoke
            }
        ]
    );
    assert!(client().init(&vec![]).is_empty());
}

#[test]
fn messages_of_other_clients() {
    let mut c = client();
    let mut told = |msg_type: Type| c.handle_msg_from_client(plain(801, 901, msg_type));
    assert_eq!(told(Type::LowResImgReq), ClientTask::SendLowRes);
    assert_eq!(told(Type::LowResImgReply), ClientTask::ReceiveLowRes);
    assert_eq!(
        told(Type::ImageRequest(text("cat.jpg"), 3)),
        ClientTask::ShareImage(text("cat.jpg"), 3)
    );
    assert_eq!(told(Type::Fragment), ClientTask::ReceiveFragment);
    assert_eq!(
        told(Type::UpdateAccess(text("i"), Action::Decrement(1))),
        ClientTask::UpdateAccess(text("i"), Action::Decrement(1))
    );
    assert_eq!(
        told(Type::UpdateAccessRequest(text("i"), Action::Increment(1))),
        ClientTask::Handled
    );
    assert_eq!(
        told(Type::UpdateAccessRequest(text("i"), Action::Increment(4))),
        ClientTask::Handled
    );
    assert_eq!(told(Type::SharedImage(text("cat"), picture(1), 1)), ClientTask::Ignore);
    assert_eq!(told(Type::DirOfServQuery), ClientTask::Ignore);
    assert_eq!(c.requests.get("i"), Some(&Action::Increment(4)));
    assert_eq!(c.requests.len(), 1);
}

#[test]
fn only_a_shared_picture_is_taken_from_a_complete_message() {
    let mut c = client();
    let id = || text("127.0.0.1:801&127.0.0.1:901&cat.png");
    let other = plain(801, 901, Type::LowResImgReq);
    assert_eq!(c.receive_shared_image(id(), Some(other), &addr(801)), None);
    assert_eq!(c.receive_shared_image(id(), None, &addr(801)), None);
    assert!(listed(&c, 801).is_empty());
    let msg = plain(801, 901, Type::SharedImage(text("dog"), picture(5), 5));
    let (target, stored) = c.receive_shared_image(id(), Some(msg), &addr(801)).unwrap();
    assert_eq!(target.file, "enc/127.0.0.1:801/cat.png");
    assert_eq!(stored, Some(picture(5)));
    assert_eq!(listed(&c, 801), vec![(id(), 5)]);
}

#[test]
fn small_pictures_are_asked_for_and_sent() {
    let c = client();
    assert_eq!(c.request_low_res_images(&addr(801)), plain(901, 801, Type::LowResImgReq));
    assert_eq!(
        c.handle_low_res_imgs_req("a.png\nb.png\n"),
        vec![
            Transfer { path: text("low/a.png"), pic_id: text("127.0.0.1:901&a.png") },
            Transfer { path: text("low/b.png"), pic_id: text("127.0.0.1:901&b.png") }
        ]
    );
}

#[test]
fn small_pictures_are_stored_by_sender() {
    let mut c = client();
    let target = c.low_res_target("127.0.0.1:801&a.png", &addr(801));
    assert_eq!(
        target,
        Target {
            dir: text("low/127.0.0.1:801"),
            file: text("low/127.0.0.1:801/a.png"),
            name: text("a.png")
        }
    );
    c.handle_low_res_imgs_reply(target.name);
    c.handle_low_res_imgs_reply(text("b.png"));
    assert_eq!(c.low_res_imgs_tmp, vec!["a.png", "b.png"]);
}

#[test]
fn pictures_are_asked_for_with_views() {
    assert_eq!(
        client().send_image_request(text("cat.jpg"), 3, &addr(801)),
        plain(901, 801, Type::ImageRequest(text("cat.jpg"), 3))
    );
}

#[test]
fn shared_pictures_carry_their_views() {
    let mut c = client();
    assert_eq!(c.encrypted_path("cat.small.jpg"), "enc/cat.png");
    let (msg, id) = share(&mut c, "cat.small.jpg", 3, 801, picture(255));
    assert_eq!(id, "127.0.0.1:901&127.0.0.1:801&cat.png");
    assert_eq!(
        msg,
        plain(901, 801, Type::SharedImage(text("cat.small.jpg"), picture(3), 3))
    );
}

#[test]
fn the_views_embedded_are_the_views_granted() {
    for (asked, granted) in [(0, 0), (1, 1), (255, 255), (256, 255), (258, 255), (u32::MAX, 255)] {
        assert_eq!(grant(asked), granted);
        let mut c = client();
        let mut sharing = Sharing::Asked(text("cat"), asked);
        let step = c.handle_image_request(&mut sharing, &addr(801), Some(picture(7)));
        let SharingStep::Send(msg, id) = step else { panic!("{:?}", step) };
        let shared = Type::SharedImage(text("cat"), picture(granted), granted as u32);
        assert_eq!(msg.msg_type, shared);
        c.handle_image_request(&mut sharing, &addr(801), None);
        assert_eq!(c.own_shared_imgs.images(&addr(801)), Some(&vec![(id, granted as u32)]));
    }
}

#[test]
fn shared_pictures_are_recorded_when_sent() {
    let mut c = client();
    let mut sharing = Sharing::Asked(text("cat.jpg"), 3);
    let id = text("127.0.0.1:901&127.0.0.1:801&cat.png");
    c.handle_image_request(&mut sharing, &addr(801), Some(picture(255)));
    assert!(c.own_shared_imgs.images(&addr(801)).is_none());
    assert_eq!(sharing, Sharing::Sent(id.clone(), 3));
    assert_eq!(c.handle_image_request(&mut sharing, &addr(801), None), SharingStep::Done);
    assert_eq!(c.own_shared_imgs.images(&addr(801)), Some(&vec![(id, 3)]));
    assert_eq!(sharing, Sharing::Over);
}

#[test]
fn missing_pictures_are_not_shared() {
    let mut c = client();
    let mut sharing = Sharing::Asked(text("cat.jpg"), 3);
    assert_eq!(c.handle_image_request(&mut sharing, &addr(801), None), SharingStep::Missing);
    assert_eq!(sharing, Sharing::Over);
    assert_eq!(c.handle_image_request(&mut sharing, &addr(801), None), SharingStep::Done);
    assert!(c.own_shared_imgs.images(&addr(801)).is_none());
}

#[test]
fn shared_pictures_are_recorded_once() {
    let mut c = client();
    for (peer, id, access) in [(801, "x", 3), (801, "y", 4), (801, "x", 9), (802, "x", 1)] {
        let mut sharing = Sharing::Sent(text(id), access);
        c.handle_image_request(&mut sharing, &addr(peer), None);
    }
    assert_eq!(
        c.own_shared_imgs.images(&addr(801)),
        Some(&vec![(text("x"), 9), (text("y"), 4)])
    );
    assert_eq!(c.own_shared_imgs.images(&addr(802)), Some(&vec![(text("x"), 1)]));
    assert!(c.received_shared_imgs.images(&addr(801)).is_none());
}

/// Receives a picture from the client at `owner`.
fn receive(c: &mut ClientBackend, owner: u16, id: &str, views: u8) -> (Target, Option<Image>) {
    c.handle_shared_image(text(id), picture(views), views as u32, &addr(owner))
}

#[test]
fn received_pictures_are_stored_by_owner() {
    let mut c = client();
    let id = "127.0.0.1:801&127.0.0.1:901&cat.png";
    let (target, image) = receive(&mut c, 801, id, 3);
    assert_eq!(
        target,
        Target {
            dir: text("enc/127.0.0.1:801"),
            file: text("enc/127.0.0.1:801/cat.png"),
            name: text("cat.png")
        }
    );
    assert_eq!(image, Some(picture(3)));
    assert_eq!(listed(&c, 801), vec![(text(id), 3)]);
}

#[test]
fn incomplete_shared_pictures_are_not_recorded() {
    let mut c = client();
    let short = || Image { dims: (1, 2), data: vec![0; 7] };
    assert_eq!(c.handle_shared_image(text("x"), short(), 4, &addr(801)).1, None);
    let msg = plain(801, 901, Type::SharedImage(text("cat"), short(), 4));
    let received = c.receive_shared_image(text("x"), Some(msg), &addr(801)).unwrap();
    assert_eq!(received.1, None);
    assert!(listed(&c, 801).is_empty());
}

#[test]
fn a_stored_picture_is_found_again() {
    let mut c = client();
    let id = "127.0.0.1:801&127.0.0.1:901&cat.png";
    let stored = receive(&mut c, 801, id, 3).0.file;
    assert_eq!(c.received_path("cat.png", &addr(801)), stored);
    assert_eq!(c.updated_path(id, &addr(801)), stored);
}

#[test]
fn views_run_out() {
    let mut c = client();
    let id = text("127.0.0.1:801&127.0.0.1:901&cat.png");
    let mut image = receive(&mut c, 801, &id, 3).1.unwrap();
    for left in [2, 1, 0] {
        image = c.view_image("cat.png", &addr(801), image).unwrap();
        assert_eq!(image, picture(left));
        assert_eq!(listed(&c, 801), vec![(id.clone(), left as u32)]);
    }
    assert_eq!(c.view_image("cat.png", &addr(801), image), None);
    assert_eq!(listed(&c, 801), vec![(id, 0)]);
}

#[test]
fn a_picture_shared_with_two_views_is_viewed_twice() {
    let mut owner = ClientBackend::new(
        text("local"),
        addr(800),
        addr(801),
        None,
        vec![],
        PicPaths { high_res: text("h"), low_res: text("l"), encrypted: text("e") },
    );
    let (msg, id) = share(&mut owner, "cat.jpg", 2, 901, picture(77));
    let mut peer = client();
    let (_, stored) = peer.receive_shared_image(id.clone(), Some(msg), &addr(801)).unwrap();
    assert_eq!(listed(&peer, 801), vec![(id.clone(), 2)]);
    let once = peer.view_image("cat.png", &addr(801), stored.unwrap()).unwrap();
    let twice = peer.view_image("cat.png", &addr(801), once).unwrap();
    assert_eq!(peer.view_image("cat.png", &addr(801), twice), None);
    assert_eq!(listed(&peer, 801), vec![(id, 0)]);
}

#[test]
fn titles_tell_the_views_left() {
    assert_eq!(
        ClientBackend::viewer_title("cat.small.png", &addr(801), 12),
        "Image from: 127.0.0.1:801\t\t\t\t\tImage name: cat\t\t\t\t\tRemaining Views: 12"
    );
}

#[test]
fn views_change() {
    assert_eq!(changed_access(3, Action::Increment(4)), Some(7));
    assert_eq!(changed_access(3, Action::Increment(252)), Some(255));
    assert_eq!(changed_access(3, Action::Increment(253)), None);
    assert_eq!(changed_access(5, Action::Increment(256)), None);
    assert_eq!(changed_access(0, Action::Increment(u32::MAX)), None);
    assert_eq!(changed_access(3, Action::Decrement(2)), Some(1));
    assert_eq!(changed_access(3, Action::Decrement(4)), Some(0));
    assert_eq!(changed_access(200, Action::Decrement(200)), Some(0));
    assert_eq!(changed_access(200, Action::Decrement(256)), Some(0));
    assert_eq!(changed_access(200, Action::Decrement(300)), Some(0));
    assert_eq!(changed_access(200, Action::Decrement(u32::MAX)), Some(0));
    assert_eq!(changed_access(3, Action::Revoke), Some(0));
}

#[test]
fn taking_views_away_undoes_adding_them() {
    for n in [0, 1, 100, 200] {
        let more = changed_access(55, Action::Increment(n)).unwrap();
        assert_eq!(changed_access(more, Action::Decrement(n)), Some(55));
    }
}

#[test]
fn updates_change_picture_and_record() {
    let mut c = client();
    let id = text("127.0.0.1:801&127.0.0.1:901&cat.png");
    let more = Action::Increment(5);
    assert_eq!(
        c.handle_update_access(id.clone(), more, &addr(801), Some(picture(3))),
        AccessUpdate::Save(picture(8))
    );
    assert_eq!(listed(&c, 801), vec![(id.clone(), 8)]);
    assert_eq!(
        c.handle_update_access(id.clone(), more, &addr(801), Some(picture(251))),
        AccessUpdate::NoResult
    );
    assert_eq!(listed(&c, 801), vec![(id, 8)]);
}

#[test]
fn updates_of_missing_pictures_change_nothing() {
    let mut c = client();
    for action in [Action::Increment(255), Action::Decrement(1), Action::Revoke] {
        assert_eq!(
            c.handle_update_access(text("i"), action, &addr(801), None),
            AccessUpdate::Missing
        );
        assert!(c.received_shared_imgs.images(&addr(801)).is_none());
    }
}

#[test]
fn a_revoked_picture_cannot_be_viewed() {
    let mut c = client();
    let stored = Some(picture(200));
    match c.handle_update_access(text("i"), Action::Revoke, &addr(801), stored) {
        AccessUpdate::Save(revoked) => {
            assert_eq!(c.view_image("cat.png", &addr(801), revoked), None)
        }
        other => panic!("{:?}", other),
    }
}

#[test]
fn recording_one_picture_leaves_the_others() {
    let mut c = client();
    receive(&mut c, 801, "x", 3);
    receive(&mut c, 801, "y", 2);
    receive(&mut c, 802, "x", 4);
    receive(&mut c, 801, "x", 1);
    assert_eq!(listed(&c, 801), vec![(text("x"), 1), (text("y"), 2)]);
    assert_eq!(listed(&c, 802), vec![(text("x"), 4)]);
}

#[test]
fn updates_are_asked_for_and_granted() {
    let c = client();
    assert_eq!(
        c.request_update_access("cat.png", Action::Increment(1), "127.0.0.1:801", &addr(801)),
        plain(
            901,
            801,
            Type::UpdateAccessRequest(
                text("127.0.0.1:801&127.0.0.1:901&cat.png"),
                Action::Increment(1)
            )
        )
    );
    assert_eq!(
        ClientBackend::handle_update_access_req(text("i"), Action::Revoke, &addr(901), &addr(801)),
        plain(901, 801, Type::UpdateAccess(text("i"), Action::Revoke))
    );
}

#[test]
fn updates_are_sent_to_the_client_or_the_cloud() {
    let c = client();
    let update =
        || Type::UpdateAccess(text("127.0.0.1:901&127.0.0.1:801&cat.png"), Action::Decrement(2));
    assert_eq!(
        c.send_update_access_to_client(
            "cat.png",
            Action::Decrement(2),
            "127.0.0.1:801",
            &addr(801)
        ),
        plain(901, 801, update())
    );
    assert_eq!(
        c.send_update_access_to_cloud("cat.png", Action::Decrement(2), "127.0.0.1:801"),
        vec![plain(900, 5000, update()), plain(900, 6000, update())]
    );
}

#[test]
fn an_update_that_waited_names_the_same_picture() {
    let c = client();
    let pending = vec![(text("127.0.0.1:801&cat.png"), Action::Revoke)];
    let update = &c.init(&pending)[0];
    assert_eq!(update.img_id, "127.0.0.1:801&127.0.0.1:901&cat.png");
    assert_eq!(c.updated_path(&update.img_id, &addr(801)), "enc/127.0.0.1:801/cat.png");
}

#[test]
fn every_server_is_told_of_a_request() {
    let types = [
        Type::ClientRequest(3),
        Type::ElectionRequest(Priority { bits: 1 }),
        Type::SharedImage(text("cat"), picture(1), 2),
        Type::DirOfServQueryReply(vec![(addr(801), false)]),
        Type::ClientDirOfServQueryPendingReply(Some(vec![(text("i"), Action::Revoke)])),
        Type::ClientDirOfServQueryPendingReply(None),
        Type::ServerDirOfServQueryPendingReply(vec![(
            addr(801),
            vec![(text("i"), Action::Revoke), (text("j"), Action::Increment(2))],
        )]),
        Type::Ack(text("m"), 1),
    ];
    for t in types {
        assert_eq!(
            client().send_init_request_to_cloud(&t),
            vec![plain(900, 5001, t.clone()), plain(900, 6001, t.clone())]
        );
    }
}

#[test]
fn the_elected_server_is_read_as_text() {
    let mut rounds = Rounds::new(3);
    let none = ClientBackend::chosen_server(&mut rounds, ChoiceEvent::Received(vec![0xff, 0xfe]));
    assert_eq!(none, Wait::Again);
    let reply = ChoiceEvent::Received(b"127.0.0.1:5000".to_vec());
    assert_eq!(
        ClientBackend::chosen_server(&mut rounds, reply),
        Wait::Finished(Some(text("127.0.0.1:5000")))
    );
    assert_eq!(rounds.left, 1);
    assert_eq!(
        ClientBackend::chosen_server(&mut rounds, ChoiceEvent::Failed),
        Wait::Finished(None)
    );
}

#[test]
fn the_server_that_replies_is_the_one_read() {
    let mut stats = ServerStats::new();
    stats.own_ips = Some((addr(5000), addr(5001), addr(5002)));
    let turn = stats.handle_client(1, plain(900, 5001, Type::ClientRequest(1)));
    let (to, reply) = stats.reply_to_client(&turn.req_id).unwrap();
    assert_eq!(to, addr(900));
    let mut rounds = Rounds::new(1);
    let read = ClientBackend::chosen_server(&mut rounds, ChoiceEvent::Received(reply.into_bytes()));
    assert_eq!(read, Wait::Finished(Some(text("127.0.0.1:5000"))));
}

#[test]
fn client_and_server_name_a_request_alike() {
    let mut c = client();
    let job = c.encryption_job("cat.png").unwrap();
    let mut msgs = c.send_init_request_to_cloud(&Type::ClientRequest(job.id));
    let turn = ServerStats::new().handle_client(job.id, msgs.remove(0));
    assert_eq!(turn.req_id, job.msg_id);
}

#[test]
fn the_first_reply_counts() {
    let mut rounds = Rounds::new(2);
    assert_eq!(rounds.settle::<u8>(None), Wait::Again);
    assert_eq!(rounds.settle(Some(Some(4u8))), Wait::Finished(Some(4)));
    let mut rounds = Rounds::new(2);
    assert_eq!(rounds.settle::<u8>(Some(None)), Wait::Finished(None));
    let mut rounds = Rounds::new(1);
    assert_eq!(rounds.settle::<u8>(None), Wait::Finished(None));
}

#[test]
fn pending_updates_are_queried() {
    let c = client();
    let mut query = CloudQuery::new();
    assert_eq!(
        c.query_pending_updates(&mut query, QueryEvent::Begin),
        QueryStep::Send(vec![
            plain(900, 5001, Type::ClientRequest(1)),
            plain(900, 6001, Type::ClientRequest(1))
        ])
    );
    assert_eq!(
        c.query_pending_updates(&mut query, QueryEvent::Choice(ChoiceEvent::Failed)),
        QueryStep::Await
    );
    assert_eq!(query, CloudQuery::Choosing(Rounds { left: CHOICE_ROUNDS - 1 }));
    let choice = QueryEvent::Choice(ChoiceEvent::Received(b"127.0.0.1:6000".to_vec()));
    assert_eq!(
        c.query_pending_updates(&mut query, choice),
        QueryStep::Ask(text("127.0.0.1:6000"))
    );
    assert_eq!(query, CloudQuery::Asked(Rounds { left: PENDING_ROUNDS }));
    for event in [
        ReplyEvent::Received(None),
        ReplyEvent::Received(Some(plain(6000, 900, Type::LowResImgReq))),
        ReplyEvent::Failed,
    ] {
        assert_eq!(
            c.query_pending_updates(&mut query, QueryEvent::Reply(event)),
            QueryStep::Await
        );
    }
    let updates = vec![(text("127.0.0.1:801&cat.png"), Action::Revoke)];
    let reply = plain(6000, 900, Type::ClientDirOfServQueryPendingReply(Some(updates)));
    assert_eq!(
        c.query_pending_updates(&mut query, QueryEvent::Reply(ReplyEvent::Received(Some(reply)))),
        QueryStep::Return(Some(vec![(text("127.0.0.1:801&cat.png"), Action::Revoke)]))
    );
    assert_eq!(query, CloudQuery::Over);
}

#[test]
fn a_query_without_an_elected_server_ends() {
    let c = client();
    let mut query = CloudQuery::new();
    c.query_dir_of_serv(&mut query, QueryEvent::Begin);
    for _ in 1..CHOICE_ROUNDS {
        assert_eq!(
            c.query_dir_of_serv(&mut query, QueryEvent::Choice(ChoiceEvent::Elapsed)),
            QueryStep::Await
        );
    }
    assert_eq!(
        c.query_dir_of_serv(&mut query, QueryEvent::Choice(ChoiceEvent::Elapsed)),
        QueryStep::Return(None)
    );
}

#[test]
fn a_query_without_an_answer_ends() {
    let c = client();
    let mut query = CloudQuery::Asked(Rounds::new(PENDING_ROUNDS));
    for _ in 1..PENDING_ROUNDS {
        assert_eq!(
            c.query_pending_updates(&mut query, QueryEvent::Reply(ReplyEvent::Elapsed)),
            QueryStep::Await
        );
    }
    assert_eq!(
        c.query_pending_updates(&mut query, QueryEvent::Reply(ReplyEvent::Elapsed)),
        QueryStep::Return(None)
    );
}

#[test]
fn the_answer_may_be_that_nothing_is_pending() {
    let c = client();
    let mut query = CloudQuery::Asked(Rounds::new(PENDING_ROUNDS));
    let reply = plain(6000, 900, Type::ClientDirOfServQueryPendingReply(None));
    assert_eq!(
        c.query_pending_updates(&mut query, QueryEvent::Reply(ReplyEvent::Received(Some(reply)))),
        QueryStep::Return(None)
    );
    assert_eq!(query, CloudQuery::Over);
}

#[test]
fn the_directory_is_queried() {
    let c = client();
    let mut query = CloudQuery::Asked(Rounds::new(DIRECTORY_ROUNDS));
    let other = plain(6000, 900, Type::ClientDirOfServQueryPendingReply(None));
    assert_eq!(
        c.query_dir_of_serv(&mut query, QueryEvent::Reply(ReplyEvent::Received(Some(other)))),
        QueryStep::Await
    );
    let reply = plain(6000, 900, Type::DirOfServQueryReply(vec![(addr(801), true)]));
    assert_eq!(
        c.query_dir_of_serv(&mut query, QueryEvent::Reply(ReplyEvent::Received(Some(reply)))),
        QueryStep::Return(Some(vec![(addr(801), true)]))
    );
}

#[test]
fn jobs_name_the_files_and_the_request() {
    let mut c = client();
    assert_eq!(
        c.encryption_job("some/dir/cat.small.jpg"),
        Some(EncryptionJob {
            id: 7,
            source: text("high/cat.small.jpg"),
            msg_id: text("127.0.0.1:900:7"),
            target: text("enc/cat.small.png")
        })
    );
    assert_eq!(c.encryption_job(".."), None);
    assert_eq!(c.next_req_id, 8);
    assert_eq!(c.encryption_job(".hidden").unwrap().target, "enc/.hidden.png");
    assert_eq!(c.next_req_id, 9);
}

#[test]
fn pictures_are_encrypted_in_turn() {
    let mut c = client();
    let mut run = EncryptionRun::new("a.jpg\nb.jpg\n");
    let asked = |id: u32| {
        EncryptionStep::Send(vec![
            plain(900, 5001, Type::ClientRequest(id)),
            plain(900, 6001, Type::ClientRequest(id))
        ])
    };
    assert_eq!(c.encrypt(&mut run, EncryptionEvent::Continue), asked(7));
    // No server is elected for the first picture.
    for _ in 1..CHOICE_ROUNDS {
        assert_eq!(
            c.encrypt(&mut run, EncryptionEvent::Choice(ChoiceEvent::Elapsed)),
            EncryptionStep::Await
        );
    }
    assert_eq!(
        c.encrypt(&mut run, EncryptionEvent::Choice(ChoiceEvent::Elapsed)),
        EncryptionStep::NoServer
    );
    assert_eq!(c.encrypt(&mut run, EncryptionEvent::Continue), asked(8));
    let choice = ChoiceEvent::Received(b"127.0.0.1:6000".to_vec());
    assert_eq!(
        c.encrypt(&mut run, EncryptionEvent::Choice(choice)),
        EncryptionStep::SendPicture(
            text("127.0.0.1:6000"),
            text("high/b.jpg"),
            text("127.0.0.1:900:8")
        )
    );
    assert_eq!(
        c.encrypt(&mut run, EncryptionEvent::Encrypted(picture(255))),
        EncryptionStep::Save(picture(255), text("enc/b.png"))
    );
    assert_eq!(c.encrypt(&mut run, EncryptionEvent::Continue), EncryptionStep::Done);
    assert_eq!(c.next_req_id, 9);
}

#[test]
fn the_last_number_can_be_used() {
    let mut c = client_with_log(Some("4294967294"));
    let mut run = EncryptionRun::new("a.jpg\n");
    assert!(run.names_next_file());
    let step = c.encrypt(&mut run, EncryptionEvent::Continue);
    assert!(matches!(step, EncryptionStep::Send(_)));
    assert_eq!(c.next_req_id, u32::MAX);
    for _ in 0..CHOICE_ROUNDS {
        c.encrypt(&mut run, EncryptionEvent::Choice(ChoiceEvent::Elapsed));
    }
    assert!(!run.names_next_file());
    assert_eq!(c.encrypt(&mut run, EncryptionEvent::Continue), EncryptionStep::Done);
    let mut run = EncryptionRun::new("..\n");
    assert!(!run.names_next_file());
    assert_eq!(c.encrypt(&mut run, EncryptionEvent::Continue), EncryptionStep::NoFile);
    assert_eq!(c.encryption_job(".."), None);
}

#[test]
fn encrypted_pictures_are_shared_from_where_they_are_saved() {
    for name in ["cat.jpg", "cat"] {
        let mut c = client();
        let saved = c.encryption_job(name).unwrap().target;
        assert_eq!(c.encrypted_path(name), saved);
    }
}

#[test]
fn addresses_are_shown_differently() {
    let v6 = |scope_id: u32| {
        SocketAddr::V6 { ip: text("fe80::1"), port: 80, flowinfo: 0, scope_id }
    };
    assert_eq!(v6(0).text(), "[fe80::1]:80");
    assert_eq!(v6(3).text(), "[fe80::1%3]:80");
    assert_ne!(addr(80).text(), addr(8).text());
}

#[test]
fn incomplete_pictures_and_missing_files_are_told() {
    let mut c = client();
    let mut run = EncryptionRun::new("a.jpg\n..\n");
    c.encrypt(&mut run, EncryptionEvent::Continue);
    let choice = ChoiceEvent::Received(b"127.0.0.1:6000".to_vec());
    c.encrypt(&mut run, EncryptionEvent::Choice(choice));
    let short = Image { dims: (1, 2), data: vec![0; 7] };
    assert_eq!(
        c.encrypt(&mut run, EncryptionEvent::Encrypted(short)),
        EncryptionStep::Incomplete
    );
    assert_eq!(c.encrypt(&mut run, EncryptionEvent::Continue), EncryptionStep::NoFile);
    assert_eq!(c.next_req_id, 8);
}

#[test]
fn different_pictures_have_different_names() {
    assert_eq!(image_id("a", "b", "c"), "a&b&c");
    assert_ne!(image_id("a", "b", "c"), image_id("b", "a", "c"));
    assert_ne!(image_id("a", "b", "c"), image_id("a", "b", "cc"));
}

#[test]
fn different_requests_have_different_names() {
    assert_eq!(request_id(&addr(80), 1), "127.0.0.1:80:1");
    assert_ne!(request_id(&addr(80), 11), request_id(&addr(80), 1));
    assert_ne!(request_id(&addr(81), 1), request_id(&addr(80), 1));
}
