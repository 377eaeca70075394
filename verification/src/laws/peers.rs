//! What holds of the clients.

use crate::address::AddrView;
use crate::client::{
    access_after,
    access_update,
    after_answer,
    choice_text,
    client_task,
    directory_reply,
    encryption_step,
    file_part,
    granted_views,
    is_pending_update,
    is_plain,
    pending_reply,
    png_name,
    query_step,
    shared_image_of,
    shares,
    sharing_step,
    takes_complete_msg,
    takes_shared_image,
    tells_cloud,
    view_of,
    AccessUpdate,
    ChoiceEvent,
    ClientBackend,
    ClientTask,
    CloudQuery,
    EncryptionEvent,
    EncryptionJob,
    EncryptionPhase,
    EncryptionRun,
    EncryptionStep,
    PendingUpdate,
    QueryEvent,
    QueryStep,
    ReplyEvent,
    Sharing,
    SharingStep,
    Target,
    CHOICE_ROUNDS,
    CHOICE_TIME,
    DIRECTORY_ROUNDS,
    PENDING_ROUNDS,
    PENDING_TIME,
    QUERY_REQUEST,
};
use crate::laws::lemma_room_for_views;
use crate::laws::pictures::views_at;
use crate::laws::words::law_stem_is_the_name_without_its_ending;
use crate::ledger::{first_index, granted, grants, lemma_first_index, names};
use crate::message::{Action, Msg, Type};
use crate::picture::Image;
use crate::server::{service_task_of, ServiceTask};
use crate::text::{
    decimal,
    file_name_of,
    lemma_split_first,
    split_at_each,
    stem_of,
};
use crate::waiting::{after_round, Wait};
use vstd::prelude::*;
use vstd::string::*;
use vstd::utf8::*;

verus! {

// ---------------------------------------------------------------------------
// What a client records
// ---------------------------------------------------------------------------

/// A list of grants has one text and number for each entry, and one name.
pub proof fn law_lists_stand_for_their_entries(list: Seq<(String, u32)>, i: int)
    requires
        0 <= i < list.len(),
    ensures
        grants(list).len() == list.len(),
        grants(list)[i] == (list[i].0@, list[i].1),
        names(grants(list)).len() == list.len(),
        names(grants(list))[i] == list[i].0@,
{
}

/// A picture that a list does not name yet is added at its end; one that it
/// names keeps its place, with the new number of views. All other entries stay
/// as they are.
pub proof fn law_a_grant_changes_one_entry(
    list: Seq<(Seq<char>, u32)>,
    id: Seq<char>,
    access: u32,
    i: int,
)
    ensures
        (forall|j: int| 0 <= j < list.len() ==> (#[trigger] list[j]).0 != id) ==> granted(
            list,
            id,
            access,
        ) == list.push((id, access)),
        0 <= i < list.len() && list[i].0 == id && (forall|j: int|
            0 <= j < i ==> (#[trigger] list[j]).0 != id) ==> granted(list, id, access)
            == list.update(i, (id, access)),
{
    let all = names(list);
    lemma_first_index(all, id);
    let k = first_index(all, id);
    if k < list.len() {
        assert(all[k] == list[k].0);
    }
    if 0 <= i < list.len() && list[i].0 == id && (forall|j: int|
        0 <= j < i ==> (#[trigger] list[j]).0 != id) {
        assert(all[i] == id);
        if k < i {
            assert(list[k].0 != id);
        }
    }
}

/// Whether two clients have the same addresses, mode, servers and directories.
pub open spec fn stand_alike(a: &ClientBackend, b: &ClientBackend) -> bool {
    &&& a.cloud_addr@ == b.cloud_addr@
    &&& a.client_addr@ == b.client_addr@
    &&& a.mode@ == b.mode@
    &&& a.cloud_servers@ == b.cloud_servers@
    &&& a.paths.high_res@ == b.paths.high_res@
    &&& a.paths.low_res@ == b.paths.low_res@
    &&& a.paths.encrypted@ == b.paths.encrypted@
}

/// Whether two clients keep the same requests and small pictures.
pub open spec fn keep_alike(a: &ClientBackend, b: &ClientBackend) -> bool {
    a.requests@ == b.requests@ && a.low_res_imgs_tmp@ == b.low_res_imgs_tmp@
}

/// A client that stays the same keeps all it has; one that uses a number has
/// the next one, and all else as before.
pub proof fn law_the_same_client_keeps_all(a: &ClientBackend, b: &ClientBackend)
    ensures
        a.same_setting(b) ==> stand_alike(a, b),
        a.same(b) ==> stand_alike(a, b) && keep_alike(a, b) && a.next_req_id == b.next_req_id
            && a.own_shared_imgs@ == b.own_shared_imgs@ && a.received_shared_imgs@
            == b.received_shared_imgs@,
        a.uses_number(b) ==> stand_alike(a, b) && keep_alike(a, b) && a.next_req_id
            == b.next_req_id + 1 && a.own_shared_imgs@ == b.own_shared_imgs@
            && a.received_shared_imgs@ == b.received_shared_imgs@,
{
}

/// Recording a picture that is shared with a peer changes that peer's list of
/// shared pictures, by one grant, and nothing else.
pub proof fn law_sharing_changes_one_list(
    before: &ClientBackend,
    after: &ClientBackend,
    peer: AddrView,
    id: Seq<char>,
    access: u32,
    other: AddrView,
)
    requires
        after.gives(before, peer, id, access),
    ensures
        after.own_shared_imgs@.contains_key(peer),
        after.own_shared_imgs@[peer] == granted(
            if before.own_shared_imgs@.contains_key(peer) {
                before.own_shared_imgs@[peer]
            } else {
                Seq::empty()
            },
            id,
            access,
        ),
        other != peer ==> after.own_shared_imgs@.contains_key(other)
            == before.own_shared_imgs@.contains_key(other) && after.own_shared_imgs@[other]
            == before.own_shared_imgs@[other],
        after.received_shared_imgs@ == before.received_shared_imgs@,
        after.next_req_id == before.next_req_id,
        stand_alike(after, before),
        keep_alike(after, before),
{
}

/// Recording a picture that an owner has shared changes that owner's list of
/// received pictures, by one grant, and nothing else.
pub proof fn law_receiving_changes_one_list(
    before: &ClientBackend,
    after: &ClientBackend,
    owner: AddrView,
    id: Seq<char>,
    access: u32,
    other: AddrView,
)
    requires
        after.receives(before, owner, id, access),
    ensures
        after.received_shared_imgs@.contains_key(owner),
        after.received_shared_imgs@[owner] == granted(
            if before.received_shared_imgs@.contains_key(owner) {
                before.received_shared_imgs@[owner]
            } else {
                Seq::empty()
            },
            id,
            access,
        ),
        other != owner ==> after.received_shared_imgs@.contains_key(other)
            == before.received_shared_imgs@.contains_key(other)
            && after.received_shared_imgs@[other] == before.received_shared_imgs@[other],
        after.own_shared_imgs@ == before.own_shared_imgs@,
        after.next_req_id == before.next_req_id,
        stand_alike(after, before),
        keep_alike(after, before),
{
}

// ---------------------------------------------------------------------------
// The number of views
// ---------------------------------------------------------------------------

/// As many views are granted as were asked for, or as many as a picture has
/// room for where more were asked for; never more than either.
pub proof fn law_views_granted_are_those_asked_for(requested_access: u32)
    ensures
        granted_views(requested_access) <= requested_access,
        granted_views(requested_access) == requested_access || granted_views(requested_access)
            == 255,
{
}

/// Adding views adds exactly so many, from none on, and has a result exactly if
/// there is room for them all.
pub proof fn law_increment_adds_exactly(access: u8, n: u32)
    ensures
        access + n <= 255 ==> (access_after(access, Action::Increment(n)) matches Some(left) && left
            == access + n),
        access + n > 255 ==> access_after(access, Action::Increment(n)) is None,
{
}

/// Taking views away takes exactly so many, or all where there are fewer.
pub proof fn law_decrement_takes_exactly(access: u8, n: u32)
    ensures
        n <= access ==> (access_after(access, Action::Decrement(n)) matches Some(left) && left + n
            == access),
        n > access ==> access_after(access, Action::Decrement(n)) == Some(0u8),
{
}

/// Views are added or taken away in any portions with the same result, as long
/// as there is room for them and there are enough; a revocation leaves none.
pub proof fn law_portions_of_views_add_up(access: u8, n: u32, m: u32)
    ensures
        access + n + m <= 255 ==> access_after(
            access_after(access, Action::Increment(n))->0,
            Action::Increment(m),
        ) == access_after(access, Action::Increment((n + m) as u32)),
        n + m <= u32::MAX ==> access_after(
            access_after(access, Action::Decrement(n))->0,
            Action::Decrement(m),
        ) == access_after(access, Action::Decrement((n + m) as u32)),
        access_after(access, Action::Revoke) == Some(0u8),
{
}

/// A view is refused exactly where no view is left, and then nothing changes.
/// Else the picture has one view less, and the record of its owner has that
/// number, under the name that the owner shared the picture by.
pub proof fn law_a_view_is_recorded(
    before: &ClientBackend,
    img_name: Seq<char>,
    owner: AddrView,
    image: Image,
    after: &ClientBackend,
    viewed: Option<Image>,
)
    requires
        view_of(before, img_name, owner, image, after, viewed),
        image.has_pixels(),
    ensures
        image.data@[views_at(image)] == 0 ==> viewed is None && *after == *before,
        image.data@[views_at(image)] > 0 ==> (viewed matches Some(v) && {
            let left = image.data@[views_at(image)] - 1;
            &&& v.dims == image.dims
            &&& v.data@ == image.data@.update(views_at(image), left as u8)
            &&& after.receives(
                before,
                owner,
                owner.text() + "&"@ + before.client_addr@.text() + "&"@ + img_name,
                left as u32,
            )
        }),
{
    reveal_strlit("&");
    assert("&"@ == seq!['&']);
    lemma_room_for_views(image);
}

/// Every change of views that an owner tells the cloud reaches every server at
/// its service address, and is one that a server keeps, under the names of
/// owner, peer and picture.
pub proof fn law_every_update_told_to_the_cloud_is_kept(
    client: &ClientBackend,
    img_name: Seq<char>,
    action: Action,
    peer: Seq<char>,
    msgs: Seq<Msg>,
    i: int,
)
    requires
        tells_cloud(client, img_name, action, peer, msgs),
        0 <= i < client.cloud_servers@.len(),
    ensures
        msgs.len() == client.cloud_servers@.len(),
        msgs[i].sender@ == client.cloud_addr@,
        msgs[i].receiver@ == client.cloud_servers@[i].0@,
        msgs[i].payload is None,
        service_task_of(msgs[i].msg_type) matches ServiceTask::KeepUpdate(img_id, change) && change
            == action && img_id@ == client.client_addr@.text() + "&"@ + peer + "&"@ + img_name,
{
    reveal_strlit("&");
    assert("&"@ == seq!['&']);
    assert(is_plain(&msgs[i], client.cloud_addr@, client.cloud_servers@[i].0@));
}

/// An update of a picture that is stored saves it with its new number of views
/// and records that number for its owner; without such a picture, or without a
/// result, nothing is saved and nothing changes.
pub proof fn law_update_is_saved_and_recorded(
    before: &ClientBackend,
    img_id: Seq<char>,
    action: Action,
    owner: AddrView,
    image: Option<Image>,
    after: &ClientBackend,
    update: &AccessUpdate,
    k: int,
)
    requires
        access_update(before, img_id, action, owner, image, after, update),
        image matches Some(i) ==> i.has_pixels() && 0 <= k < i.data@.len(),
    ensures
        image is None ==> update is Missing && *after == *before,
        image matches Some(i) ==> {
            let views = i.data@[views_at(i)];
            &&& update is NoResult <==> (action matches Action::Increment(n) && views + n > 255)
            &&& update is NoResult ==> *after == *before
            &&& !(update is NoResult) ==> (*update matches AccessUpdate::Save(u) && {
                let left = u.data@[views_at(i)];
                &&& action matches Action::Increment(n) ==> left == views + n
                &&& action matches Action::Decrement(n) ==> left == if n >= views {
                    0
                } else {
                    views - n
                }
                &&& action is Revoke ==> left == 0
                &&& u.dims == i.dims
                &&& u.data@.len() == i.data@.len()
                &&& k != views_at(i) ==> u.data@[k] == i.data@[k]
                &&& after.receives(before, owner, img_id, left as u32)
            })
        },
{
    if image is Some {
        lemma_room_for_views(image->0);
    }
}

/// An update that waited in the cloud names its owner first and the picture
/// second, whatever follows.
pub proof fn law_pending_update_names_owner_and_picture(
    owner: Seq<char>,
    name: Seq<char>,
    rest: Seq<char>,
    client: AddrView,
    kept: (String, Action),
    update: PendingUpdate,
)
    requires
        !owner.contains('&'),
        !name.contains('&'),
        kept.0@ == owner + seq!['&'] + (name + seq!['&'] + rest),
        is_pending_update(update, kept, client),
    ensures
        update.owner@ == owner,
        update.img_id@ == owner + "&"@ + client.text() + "&"@ + name,
        update.action == kept.1,
{
    reveal_strlit("&");
    assert("&"@ == seq!['&']);
    lemma_split_first(owner, '&', name + seq!['&'] + rest);
    lemma_split_first(name, '&', rest);
    let parts = split_at_each(kept.0@, '&');
    assert(parts == seq![owner] + (seq![name] + split_at_each(rest, '&')));
    assert(parts[0] == owner);
    assert(parts[1] == name);
}

// ---------------------------------------------------------------------------
// Messages from other clients
// ---------------------------------------------------------------------------

/// A plain message has its sender and receiver and no payload.
pub proof fn law_plain_messages_have_no_payload(msg: &Msg, sender: AddrView, receiver: AddrView)
    requires
        is_plain(msg, sender, receiver),
    ensures
        msg.sender@ == sender,
        msg.receiver@ == receiver,
        msg.payload is None,
{
}

/// What other clients ask for and send is handed on with all that it tells.
/// What they ask about views is kept under the picture's name, the last such
/// question first; nothing else that the client has changes.
pub proof fn law_messages_of_other_clients(
    before: &ClientBackend,
    msg: Msg,
    after: &ClientBackend,
    task: &ClientTask,
)
    requires
        client_task(before, msg, after, task),
    ensures
        msg.msg_type matches Type::UpdateAccessRequest(img_id, action) ==> task is Handled
            && after.requests@ == before.requests@.insert(img_id@, action),
        !(msg.msg_type is UpdateAccessRequest) ==> after.requests@ == before.requests@,
        msg.msg_type is LowResImgReq <==> task is SendLowRes,
        msg.msg_type is LowResImgReply <==> task is ReceiveLowRes,
        msg.msg_type is Fragment <==> task is ReceiveFragment,
        msg.msg_type matches Type::ImageRequest(name, access) ==> *task == ClientTask::ShareImage(
            name,
            access,
        ),
        task is ShareImage ==> msg.msg_type is ImageRequest,
        msg.msg_type matches Type::UpdateAccess(img_id, action) ==> *task
            == ClientTask::UpdateAccess(img_id, action),
        task is UpdateAccess ==> msg.msg_type is UpdateAccess,
        task is Handled ==> msg.msg_type is UpdateAccessRequest,
        after.next_req_id == before.next_req_id,
        after.own_shared_imgs@ == before.own_shared_imgs@,
        after.received_shared_imgs@ == before.received_shared_imgs@,
        after.low_res_imgs_tmp@ == before.low_res_imgs_tmp@,
        stand_alike(after, before),
{
}

/// A complete message shares a picture exactly if it says so, with the picture
/// and the views that it tells.
pub proof fn law_only_shared_pictures_are_taken(
    decoded: Option<Msg>,
    name: String,
    image: Image,
    access: u32,
)
    ensures
        shared_image_of(decoded) is Some <==> (decoded matches Some(m)
            && m.msg_type is SharedImage),
        decoded matches Some(m) && m.msg_type == Type::SharedImage(name, image, access)
            ==> shared_image_of(decoded) == Some((image, access)),
{
}

/// A picture that an owner has shared is stored in a directory of the owner's,
/// under its file name, as it came, and recorded under the name it was sent
/// under with the views that the message tells. One that lacks pixels is not.
pub proof fn law_shared_picture_is_stored_and_recorded(
    before: &ClientBackend,
    pic_id: Seq<char>,
    image: Image,
    access: u32,
    owner: AddrView,
    after: &ClientBackend,
    received: (Target, Option<Image>),
)
    requires
        takes_shared_image(before, pic_id, image, access, owner, after, received),
    ensures
        received.0.dir@ == before.paths.encrypted@ + "/"@ + owner.text(),
        received.0.name@ == file_part(pic_id),
        received.0.file@ == before.paths.encrypted@ + "/"@ + owner.text() + "/"@ + file_part(pic_id),
        image.fits() ==> (received.1 matches Some(stored) && stored.dims == image.dims
            && stored.data@ == image.data@ && after.receives(before, owner, pic_id, access)),
        !image.fits() ==> received.1 is None && *after == *before,
{
    reveal_strlit("/");
    assert("/"@ == seq!['/']);
}

/// A complete message that shares a picture is dealt with under the name it was
/// sent under; any other changes nothing.
pub proof fn law_complete_messages_share_pictures_or_nothing(
    before: &ClientBackend,
    pic_id: Seq<char>,
    decoded: Option<Msg>,
    owner: AddrView,
    after: &ClientBackend,
    received: Option<(Target, Option<Image>)>,
)
    requires
        takes_complete_msg(before, pic_id, decoded, owner, after, received),
    ensures
        decoded matches Some(m) ==> (m.msg_type matches Type::SharedImage(name, image, access)
            ==> received is Some && takes_shared_image(
            before,
            pic_id,
            image,
            access,
            owner,
            after,
            received->0,
        )),
        decoded is None || !((decoded->0).msg_type is SharedImage) ==> received is None && *after
            == *before,
{
}

/// A picture that is there is sent to the client that asked for it, under the
/// names of the owner, that client and the encrypted file. It is the picture in
/// the file but for the byte that holds its views; the message tells the same
/// number, and so does the record, when the picture has been sent. A picture
/// that is not there is not sent, and nothing is recorded.
pub proof fn law_a_share_sends_and_records_the_views(
    before: &ClientBackend,
    img_name: String,
    requested_access: u32,
    peer: AddrView,
    image: Option<Image>,
    after: &ClientBackend,
    next: Sharing,
    step: &SharingStep,
    k: int,
)
    requires
        sharing_step(
            before,
            Sharing::Asked(img_name, requested_access),
            peer,
            image,
            after,
            next,
            step,
        ),
        image matches Some(i) ==> i.has_pixels() && 0 <= k < i.data@.len(),
    ensures
        *after == *before,
        image is None ==> step is Missing && next is Over,
        image matches Some(i) ==> (*step matches SharingStep::Send(msg, pic_id) && {
            &&& pic_id@ == before.client_addr@.text() + "&"@ + peer.text() + "&"@ + png_name(
                img_name@,
            )
            &&& msg.sender@ == before.client_addr@
            &&& msg.receiver@ == peer
            &&& msg.payload is None
            &&& msg.msg_type matches Type::SharedImage(name, sent, told) && {
                &&& name@ == img_name@
                &&& told == granted_views(requested_access)
                &&& sent.dims == i.dims
                &&& sent.data@.len() == i.data@.len()
                &&& sent.data@[views_at(i)] == told
                &&& k != views_at(i) ==> sent.data@[k] == i.data@[k]
                &&& next matches Sharing::Sent(id, views) && id@ == pic_id@ && views == told
            }
        }),
{
    reveal_strlit("&");
    assert("&"@ == seq!['&']);
    if image is Some {
        lemma_room_for_views(image->0);
    }
}

/// A message that shares a picture has the number of views that is granted in
/// two places: what it tells, and the picture.
pub proof fn law_shared_message_tells_the_views_of_the_picture(
    msg: &Msg,
    owner: AddrView,
    peer: AddrView,
    img_name: Seq<char>,
    requested_access: u32,
    image: Image,
)
    requires
        shares(msg, owner, peer, img_name, requested_access, image),
        image.has_pixels(),
    ensures
        msg.sender@ == owner,
        msg.receiver@ == peer,
        msg.msg_type matches Type::SharedImage(name, sent, told) && name@ == img_name
            && sent.data@[views_at(image)] == told && told == granted_views(requested_access)
            && sent.data@ == image.data@.update(views_at(image), told as u8),
{
    lemma_room_for_views(image);
}

/// A picture that was sent is recorded with the views that were granted, once.
pub proof fn law_a_sent_picture_is_recorded_once(
    before: &ClientBackend,
    pic_id: String,
    views: u8,
    peer: AddrView,
    image: Option<Image>,
    after: &ClientBackend,
    next: Sharing,
    step: &SharingStep,
    then: &ClientBackend,
    end: Sharing,
    last: &SharingStep,
)
    requires
        sharing_step(before, Sharing::Sent(pic_id, views), peer, image, after, next, step),
        sharing_step(after, next, peer, image, then, end, last),
    ensures
        after.gives(before, peer, pic_id@, views as u32),
        step is Done,
        next is Over,
        *then == *after,
        end is Over,
        last is Done,
{
}

// ---------------------------------------------------------------------------
// Waiting and queries
// ---------------------------------------------------------------------------

/// A round that brings a reply ends the waiting with it. One that brings none
/// ends it without a result if it was the last, and else it goes on.
pub proof fn law_a_round_ends_with_a_reply_or_the_last<T>(left: int, result: Option<T>)
    requires
        left > 0,
    ensures
        after_round(left, Some(result)) == Wait::Finished(result),
        left == 1 ==> after_round::<T>(left, None) == Wait::<T>::Finished(None),
        left > 1 ==> after_round::<T>(left, None) == Wait::<T>::Again,
{
}

/// How long a client waits: ten rounds within five seconds for the elected
/// server, five rounds within half a second for pending updates, and five
/// rounds for the directory. A query is always the request number 1.
pub proof fn law_a_client_waits_for_a_limited_time()
    ensures
        CHOICE_ROUNDS == 10,
        CHOICE_TIME == 5000,
        PENDING_ROUNDS == 5,
        PENDING_TIME == 500,
        DIRECTORY_ROUNDS == 5,
        QUERY_REQUEST == 1,
{
}

/// The elected server is told by the bytes that came, if they are text; a round
/// that brings none, or no text, tells none.
pub proof fn law_the_elected_server_is_told_as_text(bytes: Vec<u8>)
    ensures
        valid_utf8(bytes@) ==> choice_text(ChoiceEvent::Received(bytes)) == Some(
            decode_utf8(bytes@),
        ),
        !valid_utf8(bytes@) ==> choice_text(ChoiceEvent::Received(bytes)) is None,
        choice_text(ChoiceEvent::Elapsed) is None,
        choice_text(ChoiceEvent::Failed) is None,
{
}

/// The answer to a query is the list in a message of the right kind, and
/// nothing else is an answer.
pub proof fn law_answers_are_messages_of_the_right_kind(m: Msg, event: QueryEvent)
    ensures
        event == QueryEvent::Reply(ReplyEvent::Received(Some(m))) ==> {
            &&& m.msg_type matches Type::ClientDirOfServQueryPendingReply(updates)
                ==> pending_reply(event) == Some(updates)
            &&& !(m.msg_type is ClientDirOfServQueryPendingReply) ==> pending_reply(event) is None
            &&& m.msg_type matches Type::DirOfServQueryReply(clients) ==> directory_reply(event)
                == Some(Some(clients))
            &&& !(m.msg_type is DirOfServQueryReply) ==> directory_reply(event) is None
        },
        !(event matches QueryEvent::Reply(ReplyEvent::Received(r)) && r is Some) ==> pending_reply(
            event,
        ) is None && directory_reply(event) is None,
{
}

/// When a query can be told what: to begin before all else, and then what each
/// round brings, as long as rounds are left.
pub proof fn law_a_query_is_told_one_thing_after_another(query: CloudQuery, event: QueryEvent)
    ensures
        query is New ==> (query.accepts(event) <==> event is Begin) && !query.goes_on(),
        query matches CloudQuery::Choosing(r) ==> (query.accepts(event) <==> r.left != 0
            && event is Choice) && (query.goes_on() <==> r.left != 0),
        query matches CloudQuery::Asked(r) ==> (query.accepts(event) <==> r.left != 0
            && event is Reply) && (query.goes_on() <==> r.left != 0),
        query is Over ==> !query.accepts(event) && !query.goes_on(),
{
}

/// Whether each server is asked for an election, at its election address, under
/// the number `id`.
pub open spec fn asks_every_server(msgs: Seq<Msg>, client: &ClientBackend, id: u32) -> bool {
    &&& msgs.len() == client.cloud_servers@.len()
    &&& forall|i: int|
        0 <= i < msgs.len() ==> (#[trigger] msgs[i]).sender@ == client.cloud_addr@
            && msgs[i].receiver@ == client.cloud_servers@[i].1@ && msgs[i].msg_type
            == Type::ClientRequest(id) && msgs[i].payload is None
}

/// A query asks every server for an election, waits up to ten rounds for the
/// one that was elected, asks that one, and waits a number of rounds for its
/// answer. It ends with the first answer, or without one when the rounds of
/// either kind are over.
pub proof fn law_a_query_elects_asks_and_waits<T>(
    client: &ClientBackend,
    query: CloudQuery,
    event: QueryEvent,
    reply: Option<Option<T>>,
    rounds: u32,
    next: CloudQuery,
    step: QueryStep<T>,
)
    requires
        query.accepts(event),
        query_step(client, query, event, reply, rounds, next, step),
    ensures
        query is New ==> (next matches CloudQuery::Choosing(r) && r.left == 10) && (
        step matches QueryStep::Send(msgs) && asks_every_server(msgs@, client, 1)),
        query matches CloudQuery::Choosing(left) ==> (event matches QueryEvent::Choice(e) && match choice_text(
            e,
        ) {
            Some(text) => (next matches CloudQuery::Asked(r) && r.left == rounds) && (
            step matches QueryStep::Ask(server) && server@ == text),
            None => if left.left == 1 {
                next is Over && step == QueryStep::<T>::Return(None)
            } else {
                (next matches CloudQuery::Choosing(r) && r.left + 1 == left.left) && step is Await
            },
        }),
        query matches CloudQuery::Asked(left) ==> match reply {
            Some(result) => next is Over && step == QueryStep::<T>::Return(result),
            None => if left.left == 1 {
                next is Over && step == QueryStep::<T>::Return(None)
            } else {
                (next matches CloudQuery::Asked(r) && r.left + 1 == left.left) && step is Await
            },
        },
{
    if let CloudQuery::Asked(left) = query {
        assert(after_answer(left, reply, next, step));
    }
}

// ---------------------------------------------------------------------------
// Encryption
// ---------------------------------------------------------------------------

/// A job names the request by the client's address and its number, reads the
/// picture by its file name, and saves the encryption under the stem of that
/// name: for a name of a base and an ending, under the base.
pub proof fn law_a_job_reads_and_saves_by_the_file_name(
    client: &ClientBackend,
    job: &EncryptionJob,
    pic_path: Seq<char>,
    id: int,
    base: Seq<char>,
    ending: Seq<char>,
)
    requires
        job.encrypts(client, pic_path, id),
        base.len() > 0,
        !ending.contains('.'),
        file_name_of(pic_path) == Some(base + seq!['.'] + ending),
    ensures
        job.id == id,
        job.msg_id@ == client.cloud_addr@.text() + ":"@ + decimal(job.id as nat),
        job.source@ == client.paths.high_res@ + "/"@ + (base + seq!['.'] + ending),
        job.target@ == client.paths.encrypted@ + "/"@ + (base + ".png"@),
{
    reveal_strlit(":");
    reveal_strlit("/");
    assert(":"@ == seq![':']);
    assert("/"@ == seq!['/']);
    law_stem_is_the_name_without_its_ending(base, ending);
}

/// A job is on a picture whose path leads to a file, whatever its name is.
pub proof fn law_a_job_has_a_file(
    client: &ClientBackend,
    job: &EncryptionJob,
    pic_path: Seq<char>,
    id: int,
)
    requires
        job.encrypts(client, pic_path, id),
    ensures
        job.id == id,
        job.msg_id@ == client.cloud_addr@.text() + ":"@ + decimal(job.id as nat),
        file_name_of(pic_path) matches Some(name) && job.source@ == client.paths.high_res@ + "/"@
            + name && job.target@ == client.paths.encrypted@ + "/"@ + (stem_of(name) + ".png"@),
{
    reveal_strlit(":");
    assert(":"@ == seq![':']);
    reveal_strlit("/");
    assert("/"@ == seq!['/']);
}

/// When an encryption can be told what: to continue where no picture is at
/// work, and else what that picture waits for.
pub proof fn law_an_encryption_is_told_what_it_waits_for(run: &EncryptionRun, event: EncryptionEvent)
    requires
        run.next <= run.pictures@.len(),
    ensures
        run.well_formed(),
        run.phase is Ready ==> (run.accepts(event) <==> event is Continue),
        run.phase matches EncryptionPhase::Choosing(r, job) ==> (run.accepts(event) <==> r.left != 0
            && event is Choice),
        run.phase is Encrypting ==> (run.accepts(event) <==> event is Encrypted),
        run.has_next_file() <==> run.next < run.pictures@.len() && file_name_of(
            run.pictures@[run.next as int]@,
        ) is Some,
{
}

/// Each picture whose path leads to a file begins with an election that every
/// server is asked for under the next number, which is used up. One whose path
/// leads to no file is told, and after the last picture all is done; neither
/// uses a number.
pub proof fn law_each_picture_begins_with_an_election(
    before: &ClientBackend,
    run: &EncryptionRun,
    event: EncryptionEvent,
    after: &ClientBackend,
    next: &EncryptionRun,
    step: &EncryptionStep,
)
    requires
        run.phase is Ready,
        event is Continue,
        run.next <= run.pictures@.len(),
        encryption_step(before, run, event, after, next, step),
    ensures
        next.pictures@ == run.pictures@,
        run.next == run.pictures@.len() ==> step is Done && *after == *before && *next == *run,
        run.next < run.pictures@.len() ==> if file_name_of(
            run.pictures@[run.next as int]@,
        ) is None {
            step is NoFile && *after == *before && *next == *run
        } else {
            &&& step matches EncryptionStep::Send(msgs) && asks_every_server(
                msgs@,
                before,
                before.next_req_id,
            )
            &&& next.next == run.next + 1
            &&& next.phase matches EncryptionPhase::Choosing(rounds, job) && rounds.left == 10
                && job.encrypts(
                before,
                run.pictures@[run.next as int]@,
                before.next_req_id as int,
            )
            &&& after.next_req_id == before.next_req_id + 1
            &&& after.own_shared_imgs@ == before.own_shared_imgs@
            &&& after.received_shared_imgs@ == before.received_shared_imgs@
            &&& stand_alike(after, before)
            &&& keep_alike(after, before)
        },
{
}

/// The picture goes to the server that was elected; where none is within the
/// rounds, it is left. The picture that comes back is saved as it is, if it has
/// all its pixels. None of that changes the client.
pub proof fn law_the_elected_server_gets_the_picture(
    before: &ClientBackend,
    run: &EncryptionRun,
    event: EncryptionEvent,
    after: &ClientBackend,
    next: &EncryptionRun,
    step: &EncryptionStep,
)
    requires
        run.accepts(event),
        !(event is Continue),
        encryption_step(before, run, event, after, next, step),
    ensures
        *after == *before,
        next.pictures@ == run.pictures@,
        next.next == run.next,
        run.phase matches EncryptionPhase::Choosing(rounds, job) ==> (
        event matches EncryptionEvent::Choice(e) && match choice_text(e) {
            Some(text) => next.phase == EncryptionPhase::Encrypting(job) && (
            step matches EncryptionStep::SendPicture(server, source, msg_id) && server@ == text
                && source@ == job.source@ && msg_id@ == job.msg_id@),
            None => if rounds.left == 1 {
                next.phase is Ready && step is NoServer
            } else {
                (next.phase matches EncryptionPhase::Choosing(r, j) && r.left + 1 == rounds.left
                    && j == job) && step is Await
            },
        }),
        run.phase matches EncryptionPhase::Encrypting(job) ==> (
        event matches EncryptionEvent::Encrypted(image) && next.phase is Ready && if image.fits() {
            step matches EncryptionStep::Save(saved, file) && saved.dims == image.dims
                && saved.data@ == image.data@ && file@ == job.target@
        } else {
            step is Incomplete
        }),
{
}

} // verus!
