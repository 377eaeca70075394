//! A client: it has pictures encrypted, shares them with peers, and keeps to
//! the number of views that their owners allow.

use crate::address::{AddrView, SocketAddr};
use crate::ids::{image_id, image_id_of, join, path, path_of, request_id, request_id_of};
use crate::ledger::{granted, SharedImages};
use crate::message::{Action, Msg, Type};
use crate::picture::Image;
use crate::text::{
    decimal,
    file_name,
    file_name_of,
    file_stem,
    from_utf8,
    lemma_split_two,
    lines,
    lines_of,
    split,
    split_at_each,
    stem_of,
    texts,
    u32_to_text,
};
use crate::utils::{get_pic_paths, get_req_id_log, logged_req_id};
use crate::waiting::{after_round, Rounds, Wait};
use vstd::hash_map::StringHashMap;
use vstd::prelude::*;
use vstd::string::*;
use vstd::utf8::*;

verus! {

/// The directories in which pictures are kept.
#[derive(Debug, PartialEq, Eq)]
pub struct PicPaths {
    pub high_res: String,
    pub low_res: String,
    pub encrypted: String,
}

/// What a client knows.
pub struct ClientBackend {
    /// The address at which it talks to the cloud.
    pub cloud_addr: SocketAddr,
    /// The address at which it talks to other clients.
    pub client_addr: SocketAddr,
    pub next_req_id: u32,
    pub mode: String,
    /// The service and election addresses of the servers.
    pub cloud_servers: Vec<(SocketAddr, SocketAddr)>,
    /// The pictures that it shares, by the client they are shared with.
    pub own_shared_imgs: SharedImages,
    /// The pictures that were shared with it, by their owner.
    pub received_shared_imgs: SharedImages,
    /// What other clients ask of it, by the name of the picture.
    pub requests: StringHashMap<Action>,
    /// The small pictures that came in.
    pub low_res_imgs_tmp: Vec<String>,
    pub paths: PicPaths,
}

/// A picture to send: the file to read, and the name to send it under.
#[derive(Debug, PartialEq, Eq)]
pub struct Transfer {
    pub path: String,
    pub pic_id: String,
}

/// Where to store a picture: the directory to create, the file to write, and
/// the picture's own name.
#[derive(Debug, PartialEq, Eq)]
pub struct Target {
    pub dir: String,
    pub file: String,
    pub name: String,
}

/// A pending update of a picture's views: the picture's name, the text of its
/// owner's address, and the change.
#[derive(Debug, PartialEq, Eq)]
pub struct PendingUpdate {
    pub img_id: String,
    pub owner: String,
    pub action: Action,
}

/// What is left to do about a message from another client.
#[derive(Debug, PartialEq, Eq)]
pub enum ClientTask {
    /// Nothing: the message means nothing here.
    Ignore,
    /// Nothing: the message has been dealt with.
    Handled,
    /// Send all small pictures.
    SendLowRes,
    /// Add a block to a small picture.
    ReceiveLowRes,
    /// Share the picture of this name with so many views.
    ShareImage(String, u32),
    /// Add a block to a shared picture, and call
    /// [`ClientBackend::receive_shared_image`] when it is complete.
    ReceiveFragment,
    /// Change the number of views of a received picture.
    UpdateAccess(String, Action),
}

/// Whether `msg` has this sender and receiver, and no payload.
pub open spec fn is_plain(msg: &Msg, sender: AddrView, receiver: AddrView) -> bool {
    msg.sender@ == sender && msg.receiver@ == receiver && msg.payload is None
}

/// The part of a picture's file name before its first dot.
pub open spec fn bare_name(name: Seq<char>) -> Seq<char> {
    split_at_each(name, '.').first()
}

/// The last part of a picture's name: its file name.
pub open spec fn file_part(pic_id: Seq<char>) -> Seq<char> {
    split_at_each(pic_id, '&').last()
}

/// The bare name with the ending for encrypted pictures.
pub open spec fn png_name(name: Seq<char>) -> Seq<char> {
    bare_name(name) + ".png"@
}

/// Whether `after` is `before` but for the number of views, which is `left`.
pub open spec fn has_left(before: Image, after: Image, left: u8) -> bool {
    &&& after.has_pixels()
    &&& after.dims == before.dims
    &&& after.data@ == before.data@.update(Image::byte_count(before.dims) - 1, left)
    &&& after.access_spec() == left
}

/// Whether `viewed` is what a view makes of `image`: the same picture with one
/// view less, or nothing where no view was left.
pub open spec fn takes_view(image: Image, viewed: Option<Image>) -> bool {
    match viewed {
        None => image.access_spec() == 0,
        Some(v) => image.access_spec() > 0 && has_left(
            image,
            v,
            (image.access_spec() - 1) as u8,
        ),
    }
}

/// Whether `after` and `viewed` are what a view of the picture `image`, kept
/// under `img_name` and received from the client at `owner`, makes of `before`.
pub open spec fn view_of(
    before: &ClientBackend,
    img_name: Seq<char>,
    owner: AddrView,
    image: Image,
    after: &ClientBackend,
    viewed: Option<Image>,
) -> bool {
    &&& takes_view(image, viewed)
    &&& match viewed {
        None => *after == *before,
        Some(v) => after.receives(
            before,
            owner,
            image_id_of(owner.text(), before.client_addr@.text(), img_name),
            v.access_spec() as u32,
        ),
    }
}

/// Whether `msgs` tell every server, at its service address, of a change of the
/// views of the picture `img_name` that is shared with `peer`.
pub open spec fn tells_cloud(
    client: &ClientBackend,
    img_name: Seq<char>,
    action: Action,
    peer: Seq<char>,
    msgs: Seq<Msg>,
) -> bool {
    &&& msgs.len() == client.cloud_servers@.len()
    &&& forall|i: int|
        0 <= i < msgs.len() ==> is_plain(
            #[trigger] &msgs[i],
            client.cloud_addr@,
            client.cloud_servers@[i].0@,
        ) && (msgs[i].msg_type matches Type::UpdateAccess(img_id, change) && img_id@ == image_id_of(
            client.client_addr@.text(),
            peer,
            img_name,
        ) && change == action)
}

/// Whether `updated` is what a change makes of `image`: the same picture with
/// the changed number of views, or nothing where the change has no result.
pub open spec fn takes_update(image: Image, action: Action, updated: Option<Image>) -> bool {
    match updated {
        None => access_after(image.access_spec(), action) is None,
        Some(u) => access_after(image.access_spec(), action) matches Some(left) && has_left(
            image,
            u,
            left,
        ),
    }
}

fn first_piece(s: &str, c: char) -> (t: String)
    ensures
        t@ == split_at_each(s@, c).first(),
{
    let pieces = split(s, c);
    proof {
        assert(texts(pieces@)[0] == pieces@[0]@);
    }
    pieces[0].clone()
}

fn last_piece(s: &str, c: char) -> (t: String)
    ensures
        t@ == split_at_each(s@, c).last(),
{
    let pieces = split(s, c);
    proof {
        assert(texts(pieces@)[pieces@.len() - 1] == pieces@[pieces@.len() - 1]@);
    }
    pieces[pieces.len() - 1].clone()
}

impl ClientBackend {
    /// Whether no peer is recorded twice, and no picture twice for one peer.
    pub open spec fn well_formed(&self) -> bool {
        self.own_shared_imgs.well_formed() && self.received_shared_imgs.well_formed()
    }

    /// Whether addresses, mode, servers and directories are the same.
    pub open spec fn same_setting(&self, other: &ClientBackend) -> bool {
        &&& self.cloud_addr == other.cloud_addr
        &&& self.client_addr == other.client_addr
        &&& self.mode == other.mode
        &&& self.cloud_servers == other.cloud_servers
        &&& self.paths == other.paths
    }

    /// Whether nothing differs.
    pub open spec fn same(&self, other: &ClientBackend) -> bool {
        &&& self.same_setting(other)
        &&& self.next_req_id == other.next_req_id
        &&& self.own_shared_imgs@ == other.own_shared_imgs@
        &&& self.received_shared_imgs@ == other.received_shared_imgs@
        &&& self.requests@ == other.requests@
        &&& self.low_res_imgs_tmp@ == other.low_res_imgs_tmp@
    }

    /// Whether this is `before` after one more number for a request was used.
    pub open spec fn uses_number(&self, before: &ClientBackend) -> bool {
        &&& self.next_req_id == before.next_req_id + 1
        &&& self.same_setting(before)
        &&& self.own_shared_imgs == before.own_shared_imgs
        &&& self.received_shared_imgs == before.received_shared_imgs
        &&& self.requests@ == before.requests@
        &&& self.low_res_imgs_tmp@ == before.low_res_imgs_tmp@
    }

    /// Whether this is `before` with `access` views recorded for a picture
    /// shared with `peer`.
    pub open spec fn gives(
        &self,
        before: &ClientBackend,
        peer: AddrView,
        id: Seq<char>,
        access: u32,
    ) -> bool {
        &&& self.same_setting(before)
        &&& self.next_req_id == before.next_req_id
        &&& self.own_shared_imgs@ == before.own_shared_imgs@.insert(
            peer,
            granted(before.own_shared_imgs.list(peer), id, access),
        )
        &&& self.received_shared_imgs == before.received_shared_imgs
        &&& self.requests@ == before.requests@
        &&& self.low_res_imgs_tmp@ == before.low_res_imgs_tmp@
    }

    /// Whether this is `before` with `access` views recorded for a picture
    /// received from `owner`.
    pub open spec fn receives(
        &self,
        before: &ClientBackend,
        owner: AddrView,
        id: Seq<char>,
        access: u32,
    ) -> bool {
        &&& self.same_setting(before)
        &&& self.next_req_id == before.next_req_id
        &&& self.own_shared_imgs@ == before.own_shared_imgs@
        &&& self.received_shared_imgs@ == before.received_shared_imgs@.insert(
            owner,
            granted(before.received_shared_imgs.list(owner), id, access),
        )
        &&& self.requests@ == before.requests@
        &&& self.low_res_imgs_tmp@ == before.low_res_imgs_tmp@
    }

    // -----------------------------------------------------------------------
    // Start and end
    // -----------------------------------------------------------------------

    /// The address at which a client talks to other clients: the port after
    /// the one at which it talks to the cloud.
    pub fn address_for_clients(ip_to_cloud: &SocketAddr) -> (ip_to_clients: SocketAddr)
        requires
            ip_to_cloud@.port() < u16::MAX,
        ensures
            ip_to_clients@ == ip_to_cloud@.with_port((ip_to_cloud@.port() + 1) as u16),
    {
        let port: u16 = ip_to_cloud.port();
        ip_to_cloud.with_port(port + 1)
    }

    /// A client that listens at the two addresses, and numbers its requests
    /// from what its log file holds, if it can be read.
    pub fn new(
        mode: String,
        cloud_addr: SocketAddr,
        client_addr: SocketAddr,
        req_id_log: Option<&str>,
        cloud_servers: Vec<(SocketAddr, SocketAddr)>,
        paths: PicPaths,
    ) -> (client: ClientBackend)
        ensures
            client.well_formed(),
            client.mode == mode,
            client.cloud_addr == cloud_addr,
            client.client_addr == client_addr,
            client.next_req_id == logged_req_id(
                match req_id_log {
                    Some(c) => Some(c@),
                    None => None,
                },
            ),
            client.cloud_servers == cloud_servers,
            client.paths == paths,
            client.own_shared_imgs@ == Map::<AddrView, Seq<(Seq<char>, u32)>>::empty(),
            client.received_shared_imgs@ == Map::<AddrView, Seq<(Seq<char>, u32)>>::empty(),
            client.requests@ == Map::<Seq<char>, Action>::empty(),
            client.low_res_imgs_tmp@ == Seq::<String>::empty(),
    {
        ClientBackend {
            cloud_addr,
            client_addr,
            next_req_id: get_req_id_log(req_id_log),
            mode,
            cloud_servers,
            own_shared_imgs: SharedImages::new(),
            received_shared_imgs: SharedImages::new(),
            requests: StringHashMap::new(),
            low_res_imgs_tmp: Vec::new(),
            paths,
        }
    }

    /// What the updates mean that waited in the cloud while this client was
    /// away. Each is kept there under the owner's address and the picture's
    /// file name, with `&` between them.
    pub fn init(&self, pending: &Vec<(String, Action)>) -> (updates: Vec<PendingUpdate>)
        requires
            forall|i: int| 0 <= i < pending@.len() ==> (#[trigger] pending@[i]).0@.contains('&'),
        ensures
            updates@.len() == pending@.len(),
            forall|i: int|
                0 <= i < updates@.len() ==> is_pending_update(
                    #[trigger] updates@[i],
                    pending@[i],
                    self.client_addr@,
                ),
    {
        let mut updates: Vec<PendingUpdate> = Vec::new();
        let own = self.client_addr.text();
        let mut i: usize = 0;
        while i < pending.len()
            invariant
                i <= pending@.len(),
                own@ == self.client_addr@.text(),
                forall|j: int|
                    0 <= j < pending@.len() ==> (#[trigger] pending@[j]).0@.contains('&'),
                updates@.len() == i,
                forall|j: int|
                    0 <= j < i ==> is_pending_update(
                        #[trigger] updates@[j],
                        pending@[j],
                        self.client_addr@,
                    ),
            decreases pending@.len() - i,
        {
            let parts = split(pending[i].0.as_str(), '&');
            proof {
                assert(pending@[i as int].0@.contains('&'));
                lemma_split_two(pending@[i as int].0@, '&');
                assert(texts(parts@)[0] == parts@[0]@);
                assert(texts(parts@)[1] == parts@[1]@);
            }
            let img_id = image_id(parts[0].as_str(), own.as_str(), parts[1].as_str());
            updates.push(
                PendingUpdate { img_id, owner: parts[0].clone(), action: pending[i].1 },
            );
            i = i + 1;
        }
        updates
    }

    /// What to write to the log file when the client ends.
    pub fn quit(&self) -> (contents: String)
        ensures
            contents@ == decimal(self.next_req_id as nat),
    {
        u32_to_text(self.next_req_id)
    }

    /// A number for a request, which no later request gets.
    pub fn get_next_req_id(&mut self) -> (id: u32)
        requires
            old(self).next_req_id < u32::MAX,
        ensures
            id == old(self).next_req_id,
            final(self).uses_number(old(self)),
    {
        let id: u32 = self.next_req_id;
        self.next_req_id = id + 1;
        id
    }
}

/// Whether `update` says what the pending update `kept` means to the client at
/// the address `client`.
pub open spec fn is_pending_update(
    update: PendingUpdate,
    kept: (String, Action),
    client: AddrView,
) -> bool {
    let parts = split_at_each(kept.0@, '&');
    &&& update.owner@ == parts[0]
    &&& update.img_id@ == image_id_of(parts[0], client.text(), parts[1])
    &&& update.action == kept.1
}

// ---------------------------------------------------------------------------
// Messages from other clients
// ---------------------------------------------------------------------------

/// Whether `after` and `task` are what a message from another client makes of
/// `before`.
pub open spec fn client_task(
    before: &ClientBackend,
    msg: Msg,
    after: &ClientBackend,
    task: &ClientTask,
) -> bool {
    match msg.msg_type {
        Type::UpdateAccessRequest(img_id, action) => {
            &&& task is Handled
            &&& after.same_setting(before)
            &&& after.next_req_id == before.next_req_id
            &&& after.own_shared_imgs == before.own_shared_imgs
            &&& after.received_shared_imgs == before.received_shared_imgs
            &&& after.requests@ == before.requests@.insert(img_id@, action)
            &&& after.low_res_imgs_tmp@ == before.low_res_imgs_tmp@
        },
        Type::LowResImgReq => *after == *before && task is SendLowRes,
        Type::LowResImgReply => *after == *before && task is ReceiveLowRes,
        Type::ImageRequest(name, access) => *after == *before && *task == ClientTask::ShareImage(
            name,
            access,
        ),
        Type::Fragment => *after == *before && task is ReceiveFragment,
        Type::UpdateAccess(img_id, action) => *after == *before && *task
            == ClientTask::UpdateAccess(img_id, action),
        _ => *after == *before && task is Ignore,
    }
}

/// The picture and its number of views that a complete message shares, if it
/// does that. `None` stands for bytes that are no message.
pub open spec fn shared_image_of(decoded: Option<Msg>) -> Option<(Image, u32)> {
    match decoded {
        Some(m) => match m.msg_type {
            Type::SharedImage(name, image, access) => Some((image, access)),
            _ => None,
        },
        None => None,
    }
}

/// The picture and its number of views that a complete message shares.
fn shared_image(decoded: Option<Msg>) -> (shared: Option<(Image, u32)>)
    ensures
        shared == shared_image_of(decoded),
{
    match decoded {
        Some(m) => match m.msg_type {
            Type::SharedImage(_, image, access) => Some((image, access)),
            _ => None,
        },
        None => None,
    }
}

/// Whether `received` says where to store the picture `image`, named `pic_id`,
/// that the client at `owner` has shared, and gives the picture, if its data
/// holds all its pixels; and `after` is `before` with its number of views
/// recorded under that name. A picture that lacks pixels changes nothing.
pub open spec fn takes_shared_image(
    before: &ClientBackend,
    pic_id: Seq<char>,
    image: Image,
    access: u32,
    owner: AddrView,
    after: &ClientBackend,
    received: (Target, Option<Image>),
) -> bool {
    &&& received.0.dir@ == path_of(before.paths.encrypted@, owner.text())
    &&& received.0.name@ == file_part(pic_id)
    &&& received.0.file@ == path_of(received.0.dir@, received.0.name@)
    &&& received.1 is Some <==> image.fits()
    &&& match received.1 {
        Some(stored) => stored.same(&image) && after.receives(before, owner, pic_id, access),
        None => *after == *before,
    }
}

/// Whether `after` and `received` are what a complete message, which the client
/// at `owner` has sent under the name `pic_id`, makes of `before`. One that
/// shares a picture is dealt with under that name, whatever name stands in it;
/// any other, or bytes that are no message, change nothing.
pub open spec fn takes_complete_msg(
    before: &ClientBackend,
    pic_id: Seq<char>,
    decoded: Option<Msg>,
    owner: AddrView,
    after: &ClientBackend,
    received: Option<(Target, Option<Image>)>,
) -> bool {
    match shared_image_of(decoded) {
        None => received is None && *after == *before,
        Some(shared) => received matches Some(r) && takes_shared_image(
            before,
            pic_id,
            shared.0,
            shared.1,
            owner,
            after,
            r,
        ),
    }
}

/// How far the sharing of a picture has come.
#[derive(Debug, PartialEq, Eq)]
pub enum Sharing {
    /// The picture of this name was asked for, with so many views.
    Asked(String, u32),
    /// The picture of this name was sent, with so many views granted.
    Sent(String, u8),
    Over,
}

/// What to do next in the sharing of a picture.
#[derive(Debug, PartialEq, Eq)]
pub enum SharingStep {
    /// Send the message under this name.
    Send(Msg, String),
    /// There is no such picture.
    Missing,
    Done,
}

/// The number of views that is granted where so many are asked for: that
/// number, or as many as a picture has room for.
pub open spec fn granted_views(requested_access: u32) -> u8 {
    if requested_access <= u8::MAX {
        requested_access as u8
    } else {
        u8::MAX
    }
}

/// The number of views that is granted where so many are asked for.
pub fn grant(requested_access: u32) -> (views: u8)
    ensures
        views == granted_views(requested_access),
{
    if requested_access <= 255 {
        requested_access as u8
    } else {
        255
    }
}

/// Whether `msg` shares the picture `image` under its name. The number of views
/// that is granted stands both in the message and in the picture.
pub open spec fn shares(
    msg: &Msg,
    owner: AddrView,
    peer: AddrView,
    img_name: Seq<char>,
    requested_access: u32,
    image: Image,
) -> bool {
    &&& is_plain(msg, owner, peer)
    &&& msg.msg_type matches Type::SharedImage(name, sent, access) && {
        &&& name@ == img_name
        &&& access == granted_views(requested_access)
        &&& has_left(image, sent, granted_views(requested_access))
    }
}

/// Whether `after`, `next` and `step` are what comes of one step of sharing a
/// picture with the client at `peer`. `image` is the picture in the file, if
/// there is one.
pub open spec fn sharing_step(
    before: &ClientBackend,
    sharing: Sharing,
    peer: AddrView,
    image: Option<Image>,
    after: &ClientBackend,
    next: Sharing,
    step: &SharingStep,
) -> bool {
    match sharing {
        Sharing::Asked(img_name, access) => {
            &&& *after == *before
            &&& match image {
                None => next is Over && step is Missing,
                Some(i) => {
                    let id = image_id_of(
                        before.client_addr@.text(),
                        peer.text(),
                        png_name(img_name@),
                    );
                    &&& step matches SharingStep::Send(msg, pic_id) && pic_id@ == id && shares(
                        &msg,
                        before.client_addr@,
                        peer,
                        img_name@,
                        access,
                        i,
                    )
                    &&& next matches Sharing::Sent(pic_id, n) && pic_id@ == id && n
                        == granted_views(access)
                },
            }
        },
        Sharing::Sent(pic_id, access) => {
            &&& after.gives(before, peer, pic_id@, access as u32)
            &&& next is Over
            &&& step is Done
        },
        Sharing::Over => *after == *before && next is Over && step is Done,
    }
}

impl ClientBackend {
    /// Keeps what another client asks for, and says what is left to do about
    /// any other message.
    pub fn handle_msg_from_client(&mut self, msg: Msg) -> (task: ClientTask)
        ensures
            client_task(old(self), msg, final(self), &task),
    {
        match msg.msg_type {
            Type::LowResImgReq => ClientTask::SendLowRes,
            Type::LowResImgReply => ClientTask::ReceiveLowRes,
            Type::ImageRequest(name, access) => ClientTask::ShareImage(name, access),
            Type::Fragment => ClientTask::ReceiveFragment,
            Type::UpdateAccessRequest(img_id, action) => {
                self.requests.insert(img_id, action);
                ClientTask::Handled
            },
            Type::UpdateAccess(img_id, action) => ClientTask::UpdateAccess(img_id, action),
            _ => ClientTask::Ignore,
        }
    }

    fn plain_msg(&self, receiver: &SocketAddr, msg_type: Type) -> (msg: Msg)
        ensures
            is_plain(&msg, self.client_addr@, receiver@),
            msg.msg_type == msg_type,
    {
        Msg {
            sender: self.client_addr.clone(),
            receiver: receiver.clone(),
            msg_type,
            payload: None,
        }
    }

    // -----------------------------------------------------------------------
    // Small pictures
    // -----------------------------------------------------------------------

    /// Asks another client for its small pictures.
    pub fn request_low_res_images(&self, client_addr: &SocketAddr) -> (msg: Msg)
        ensures
            is_plain(&msg, self.client_addr@, client_addr@),
            msg.msg_type is LowResImgReq,
    {
        self.plain_msg(client_addr, Type::LowResImgReq)
    }

    /// The small pictures to send, one for each line of `contents`. Each goes
    /// under this client's address and its own name.
    pub fn handle_low_res_imgs_req(&self, contents: &str) -> (pics: Vec<Transfer>)
        ensures
            pics@.len() == lines_of(contents@).len(),
            forall|i: int|
                0 <= i < pics@.len() ==> {
                    &&& (#[trigger] pics@[i]).path@ == path_of(
                        self.paths.low_res@,
                        lines_of(contents@)[i],
                    )
                    &&& pics@[i].pic_id@ == self.client_addr@.text() + seq!['&'] + lines_of(
                        contents@,
                    )[i]
                },
    {
        let names = lines(contents);
        let own = self.client_addr.text();
        let mut pics: Vec<Transfer> = Vec::new();
        let mut i: usize = 0;
        proof {
            reveal_strlit("&");
            assert("&"@ == seq!['&']);
        }
        while i < names.len()
            invariant
                i <= names@.len(),
                "&"@ == seq!['&'],
                texts(names@) == lines_of(contents@),
                own@ == self.client_addr@.text(),
                pics@.len() == i,
                forall|j: int|
                    0 <= j < i ==> {
                        &&& (#[trigger] pics@[j]).path@ == path_of(
                            self.paths.low_res@,
                            lines_of(contents@)[j],
                        )
                        &&& pics@[j].pic_id@ == self.client_addr@.text() + seq!['&'] + lines_of(
                            contents@,
                        )[j]
                    },
            decreases names@.len() - i,
        {
            let name = &names[i];
            proof {
                assert(texts(names@)[i as int] == name@);
            }
            pics.push(
                Transfer {
                    path: path(self.paths.low_res.as_str(), name.as_str()),
                    pic_id: join(own.as_str(), "&", name.as_str()),
                },
            );
            i = i + 1;
        }
        pics
    }

    /// Where to store a small picture: in a directory of its sender's.
    pub fn low_res_target(&self, pic_id: &str, src_addr: &SocketAddr) -> (target: Target)
        ensures
            target.dir@ == path_of(self.paths.low_res@, src_addr@.text()),
            target.name@ == file_part(pic_id@),
            target.file@ == path_of(target.dir@, target.name@),
    {
        let dir = path(self.paths.low_res.as_str(), src_addr.text().as_str());
        let name = last_piece(pic_id, '&');
        let file = path(dir.as_str(), name.as_str());
        Target { dir, file, name }
    }

    /// Notes that a small picture has been stored.
    pub fn handle_low_res_imgs_reply(&mut self, name: String)
        ensures
            final(self).low_res_imgs_tmp@ == old(self).low_res_imgs_tmp@.push(name),
            final(self).same_setting(old(self)),
            final(self).next_req_id == old(self).next_req_id,
            final(self).own_shared_imgs == old(self).own_shared_imgs,
            final(self).received_shared_imgs == old(self).received_shared_imgs,
            final(self).requests@ == old(self).requests@,
    {
        self.low_res_imgs_tmp.push(name);
    }

    // -----------------------------------------------------------------------
    // Sharing
    // -----------------------------------------------------------------------

    /// Asks another client for a picture with so many views.
    pub fn send_image_request(
        &self,
        img_name: String,
        requested_access: u32,
        peer_client_addr: &SocketAddr,
    ) -> (msg: Msg)
        ensures
            is_plain(&msg, self.client_addr@, peer_client_addr@),
            msg.msg_type == Type::ImageRequest(img_name, requested_access),
    {
        self.plain_msg(peer_client_addr, Type::ImageRequest(img_name, requested_access))
    }

    /// The file in which the encrypted picture `img_name` is kept.
    pub fn encrypted_path(&self, img_name: &str) -> (file: String)
        ensures
            file@ == path_of(self.paths.encrypted@, png_name(img_name@)),
    {
        let name = first_piece(img_name, '.').concat(".png");
        path(self.paths.encrypted.as_str(), name.as_str())
    }

    /// The message that shares a picture with the client at `src_addr`, and
    /// the name to send it under. The picture carries the number of views that
    /// it allows.
    fn shared_msg(
        &self,
        img_name: String,
        requested_access: u32,
        src_addr: &SocketAddr,
        image: Image,
    ) -> (shared: (Msg, String))
        requires
            image.has_pixels(),
        ensures
            shares(&shared.0, self.client_addr@, src_addr@, img_name@, requested_access, image),
            shared.1@ == image_id_of(
                self.client_addr@.text(),
                src_addr@.text(),
                png_name(img_name@),
            ),
    {
        let name = first_piece(img_name.as_str(), '.').concat(".png");
        let pic_id = image_id(
            self.client_addr.text().as_str(),
            src_addr.text().as_str(),
            name.as_str(),
        );
        let views: u8 = grant(requested_access);
        let sent = image.with_access(views);
        (self.plain_msg(src_addr, Type::SharedImage(img_name, sent, views as u32)), pic_id)
    }

    /// Takes the sharing of a picture with the client at `src_addr` one step
    /// further. The first step takes the picture in the file that
    /// [`ClientBackend::encrypted_path`] names, if there is one; where there is
    /// none, nothing is sent and nothing recorded. The second step comes when
    /// the picture has been sent, and records it. The number of views that is
    /// granted stands in the picture, in the message and in the record.
    pub fn handle_image_request(
        &mut self,
        sharing: &mut Sharing,
        src_addr: &SocketAddr,
        image: Option<Image>,
    ) -> (step: SharingStep)
        requires
            old(self).well_formed(),
            image matches Some(i) ==> i.has_pixels(),
        ensures
            final(self).well_formed(),
            sharing_step(
                old(self),
                *old(sharing),
                src_addr@,
                image,
                final(self),
                *final(sharing),
                &step,
            ),
    {
        let mut now: Sharing = Sharing::Over;
        std::mem::swap(&mut now, sharing);
        match now {
            Sharing::Asked(img_name, requested_access) => match image {
                None => SharingStep::Missing,
                Some(i) => {
                    let (msg, pic_id) = self.shared_msg(img_name, requested_access, src_addr, i);
                    *sharing = Sharing::Sent(pic_id.clone(), grant(requested_access));
                    SharingStep::Send(msg, pic_id)
                },
            },
            Sharing::Sent(pic_id, views) => {
                self.own_shared_imgs.record(src_addr, pic_id, views as u32);
                SharingStep::Done
            },
            Sharing::Over => SharingStep::Done,
        }
    }

    /// Where to store a picture that the client at `src_addr` has shared, and
    /// the picture, if its data holds all its pixels; then its number of views
    /// is recorded.
    pub fn handle_shared_image(
        &mut self,
        pic_id: String,
        image: Image,
        received_access: u32,
        src_addr: &SocketAddr,
    ) -> (received: (Target, Option<Image>))
        requires
            old(self).well_formed(),
        ensures
            final(self).well_formed(),
            takes_shared_image(
                old(self),
                pic_id@,
                image,
                received_access,
                src_addr@,
                final(self),
                received,
            ),
    {
        let dir = path(self.paths.encrypted.as_str(), src_addr.text().as_str());
        let name = last_piece(pic_id.as_str(), '&');
        let file = path(dir.as_str(), name.as_str());
        let checked = image.checked();
        if checked.is_some() {
            self.record_received(src_addr, pic_id, received_access);
        }
        (Target { dir, file, name }, checked)
    }

    /// Deals with a complete message that the client at `src_addr` has sent
    /// under the name `pic_id`: takes the picture that it shares, if it does
    /// that. `None` stands for bytes that are no message.
    pub fn receive_shared_image(
        &mut self,
        pic_id: String,
        decoded: Option<Msg>,
        src_addr: &SocketAddr,
    ) -> (received: Option<(Target, Option<Image>)>)
        requires
            old(self).well_formed(),
        ensures
            final(self).well_formed(),
            takes_complete_msg(
                old(self),
                pic_id@,
                decoded,
                src_addr@,
                final(self),
                received,
            ),
    {
        match shared_image(decoded) {
            None => None,
            Some((image, access)) => Some(
                self.handle_shared_image(pic_id, image, access, src_addr),
            ),
        }
    }

    /// Records the number of views of a picture received from the client at
    /// `src_addr`.
    fn record_received(&mut self, src_addr: &SocketAddr, pic_id: String, access: u32)
        requires
            old(self).well_formed(),
        ensures
            final(self).well_formed(),
            final(self).receives(old(self), src_addr@, pic_id@, access),
    {
        self.received_shared_imgs.record(src_addr, pic_id, access);
    }

    // -----------------------------------------------------------------------
    // Viewing
    // -----------------------------------------------------------------------

    /// The file in which a picture of this name, received from the client at
    /// `src_addr`, is kept.
    pub fn received_path(&self, img_name: &str, src_addr: &SocketAddr) -> (file: String)
        ensures
            file@ == path_of(path_of(self.paths.encrypted@, src_addr@.text()), img_name@),
    {
        let dir = path(self.paths.encrypted.as_str(), src_addr.text().as_str());
        path(dir.as_str(), img_name)
    }

    /// Takes one view from a received picture, which must replace the stored
    /// one, and records how many are left. Where none was left there is no
    /// picture to view, and nothing changes.
    pub fn view_image(
        &mut self,
        img_name: &str,
        src_addr: &SocketAddr,
        image: Image,
    ) -> (viewed: Option<Image>)
        requires
            old(self).well_formed(),
            image.has_pixels(),
        ensures
            final(self).well_formed(),
            view_of(old(self), img_name@, src_addr@, image, final(self), viewed),
            takes_view(image, viewed),
            viewed is None ==> *final(self) == *old(self),
            viewed matches Some(v) ==> final(self).receives(
                old(self),
                src_addr@,
                image_id_of(src_addr@.text(), old(self).client_addr@.text(), img_name@),
                v.access_spec() as u32,
            ),
    {
        let access: u8 = image.access();
        if access == 0 {
            return None;
        }
        let left: u8 = access - 1;
        let viewed = image.with_access(left);
        let img_id = image_id(
            src_addr.text().as_str(),
            self.client_addr.text().as_str(),
            img_name,
        );
        self.record_received(src_addr, img_id, left as u32);
        Some(viewed)
    }

    /// The title of the window in which a picture is shown.
    pub fn viewer_title(img_name: &str, src_addr: &SocketAddr, left: u8) -> (title: String)
        ensures
            title@ == "Image from: "@ + src_addr@.text() + "\t\t\t\t\tImage name: "@ + bare_name(
                img_name@,
            ) + "\t\t\t\t\tRemaining Views: "@ + decimal(left as nat),
    {
        join("Image from: ", src_addr.text().as_str(), "\t\t\t\t\tImage name: ").concat(
            first_piece(img_name, '.').as_str(),
        ).concat("\t\t\t\t\tRemaining Views: ").concat(u32_to_text(left as u32).as_str())
    }
}

// ---------------------------------------------------------------------------
// Changing the number of views
// ---------------------------------------------------------------------------

/// The number of views after a change. A decrement stops at zero; an increment
/// over the largest number has no result.
pub open spec fn access_after(access: u8, action: Action) -> Option<u8> {
    match action {
        Action::Increment(n) => if access + n <= u8::MAX {
            Some((access + n) as u8)
        } else {
            None
        },
        Action::Decrement(n) => if n > access {
            Some(0)
        } else {
            Some((access - n) as u8)
        },
        Action::Revoke => Some(0),
    }
}

/// The number of views after a change.
pub fn changed_access(access: u8, action: Action) -> (changed: Option<u8>)
    ensures
        changed == access_after(access, action),
{
    match action {
        Action::Increment(n) => if n <= (255 - access) as u32 {
            Some(access + n as u8)
        } else {
            None
        },
        Action::Decrement(n) => if n > access as u32 {
            Some(0)
        } else {
            Some(access - n as u8)
        },
        Action::Revoke => Some(0),
    }
}

/// What comes of a change of the number of views.
#[derive(Debug, PartialEq, Eq)]
pub enum AccessUpdate {
    /// There is no such picture.
    Missing,
    /// The picture cannot have that many views.
    NoResult,
    /// This picture must replace the stored one.
    Save(Image),
}

/// Whether `after` and `update` are what a change of the number of views, told
/// by the client at `owner`, makes of `before`. `image` is the picture in the
/// file, if there is one.
pub open spec fn access_update(
    before: &ClientBackend,
    img_id: Seq<char>,
    action: Action,
    owner: AddrView,
    image: Option<Image>,
    after: &ClientBackend,
    update: &AccessUpdate,
) -> bool {
    match image {
        None => update is Missing && *after == *before,
        Some(i) => match *update {
            AccessUpdate::Missing => false,
            AccessUpdate::NoResult => takes_update(i, action, None) && *after == *before,
            AccessUpdate::Save(u) => takes_update(i, action, Some(u)) && after.receives(
                before,
                owner,
                img_id,
                u.access_spec() as u32,
            ),
        },
    }
}

impl ClientBackend {
    /// Asks the owner of a picture to change this client's number of views.
    /// The picture is named by the text that was given for the owner.
    pub fn request_update_access(
        &self,
        img_name: &str,
        new_access: Action,
        peer_client_addr: &str,
        peer: &SocketAddr,
    ) -> (msg: Msg)
        ensures
            is_plain(&msg, self.client_addr@, peer@),
            msg.msg_type matches Type::UpdateAccessRequest(img_id, action) && img_id@
                == image_id_of(peer_client_addr@, self.client_addr@.text(), img_name@) && action
                == new_access,
    {
        let img_id = image_id(peer_client_addr, self.client_addr.text().as_str(), img_name);
        self.plain_msg(peer, Type::UpdateAccessRequest(img_id, new_access))
    }

    /// Grants what the client at `src_addr` asked for.
    pub fn handle_update_access_req(
        img_id: String,
        action: Action,
        client_addr: &SocketAddr,
        src_addr: &SocketAddr,
    ) -> (msg: Msg)
        ensures
            is_plain(&msg, client_addr@, src_addr@),
            msg.msg_type == Type::UpdateAccess(img_id, action),
    {
        Msg {
            sender: client_addr.clone(),
            receiver: src_addr.clone(),
            msg_type: Type::UpdateAccess(img_id, action),
            payload: None,
        }
    }

    /// The file in which the picture `img_id`, received from the client at
    /// `src_addr`, is kept.
    pub fn updated_path(&self, img_id: &str, src_addr: &SocketAddr) -> (file: String)
        ensures
            file@ == path_of(
                path_of(self.paths.encrypted@, src_addr@.text()),
                file_part(img_id@),
            ),
    {
        let name = last_piece(img_id, '&');
        self.received_path(name.as_str(), src_addr)
    }

    /// Changes the number of views of the received picture in the file that
    /// [`ClientBackend::updated_path`] names, if there is one, and records it.
    /// Where there is no picture, or the change has no result, nothing changes.
    pub fn handle_update_access(
        &mut self,
        img_id: String,
        action: Action,
        src_addr: &SocketAddr,
        image: Option<Image>,
    ) -> (update: AccessUpdate)
        requires
            old(self).well_formed(),
            image matches Some(i) ==> i.has_pixels(),
        ensures
            final(self).well_formed(),
            access_update(
                old(self),
                img_id@,
                action,
                src_addr@,
                image,
                final(self),
                &update,
            ),
    {
        match image {
            None => AccessUpdate::Missing,
            Some(i) => match changed_access(i.access(), action) {
                None => AccessUpdate::NoResult,
                Some(left) => {
                    let updated = i.with_access(left);
                    self.record_received(src_addr, img_id, left as u32);
                    AccessUpdate::Save(updated)
                },
            },
        }
    }

    /// Tells a client that the number of views of a picture changes. The
    /// picture is named by the text that was given for the client.
    pub fn send_update_access_to_client(
        &self,
        img_name: &str,
        action: Action,
        peer_client_addr: &str,
        peer: &SocketAddr,
    ) -> (msg: Msg)
        ensures
            is_plain(&msg, self.client_addr@, peer@),
            msg.msg_type matches Type::UpdateAccess(img_id, change) && img_id@ == image_id_of(
                self.client_addr@.text(),
                peer_client_addr@,
                img_name@,
            ) && change == action,
    {
        let img_id = image_id(self.client_addr.text().as_str(), peer_client_addr, img_name);
        self.plain_msg(peer, Type::UpdateAccess(img_id, action))
    }

    /// Tells every server, at its service address, that the number of views of
    /// a picture changes for a client that is away.
    pub fn send_update_access_to_cloud(
        &self,
        img_name: &str,
        action: Action,
        peer_client_addr: &str,
    ) -> (msgs: Vec<Msg>)
        ensures
            tells_cloud(self, img_name@, action, peer_client_addr@, msgs@),
            msgs@.len() == self.cloud_servers@.len(),
            forall|i: int|
                0 <= i < msgs@.len() ==> {
                    &&& is_plain(
                        #[trigger] &msgs@[i],
                        self.cloud_addr@,
                        self.cloud_servers@[i].0@,
                    )
                    &&& msgs@[i].msg_type matches Type::UpdateAccess(img_id, change) && img_id@
                        == image_id_of(self.client_addr@.text(), peer_client_addr@, img_name@)
                        && change == action
                },
    {
        let img_id = image_id(self.client_addr.text().as_str(), peer_client_addr, img_name);
        let mut msgs: Vec<Msg> = Vec::new();
        let mut i: usize = 0;
        while i < self.cloud_servers.len()
            invariant
                i <= self.cloud_servers@.len(),
                img_id@ == image_id_of(self.client_addr@.text(), peer_client_addr@, img_name@),
                msgs@.len() == i,
                forall|j: int|
                    0 <= j < i ==> {
                        &&& is_plain(
                            #[trigger] &msgs@[j],
                            self.cloud_addr@,
                            self.cloud_servers@[j].0@,
                        )
                        &&& msgs@[j].msg_type matches Type::UpdateAccess(id, change) && id@
                            == image_id_of(self.client_addr@.text(), peer_client_addr@, img_name@)
                            && change == action
                    },
            decreases self.cloud_servers@.len() - i,
        {
            msgs.push(
                Msg {
                    sender: self.cloud_addr.clone(),
                    receiver: self.cloud_servers[i].0.clone(),
                    msg_type: Type::UpdateAccess(img_id.clone(), action),
                    payload: None,
                },
            );
            i = i + 1;
        }
        msgs
    }
}

// ---------------------------------------------------------------------------
// The cloud
// ---------------------------------------------------------------------------

/// How many rounds a client waits for the server that was elected.
pub const CHOICE_ROUNDS: u32 = 10;

/// How long it waits for that server in all, in milliseconds.
pub const CHOICE_TIME: u64 = 5000;

/// How many rounds a client waits for pending updates.
pub const PENDING_ROUNDS: u32 = 5;

/// How long it waits for them in all, in milliseconds.
pub const PENDING_TIME: u64 = 500;

/// How many rounds a client waits for the directory of clients.
pub const DIRECTORY_ROUNDS: u32 = 5;

/// The number of the request for a query.
pub const QUERY_REQUEST: u32 = 1;

/// What a round of waiting for the elected server brings.
#[derive(Debug, PartialEq, Eq)]
pub enum ChoiceEvent {
    /// The time is over.
    Elapsed,
    /// Bytes came in.
    Received(Vec<u8>),
    /// Nothing could be received.
    Failed,
}

/// What a round of waiting for a server's answer brings.
#[derive(Debug, PartialEq, Eq)]
pub enum ReplyEvent {
    /// The time is over.
    Elapsed,
    /// Bytes came in, which are a message or not.
    Received(Option<Msg>),
    /// Nothing could be received.
    Failed,
}

/// What a query to the cloud is told.
#[derive(Debug, PartialEq, Eq)]
pub enum QueryEvent {
    /// To begin.
    Begin,
    /// What a round of waiting for the elected server brought.
    Choice(ChoiceEvent),
    /// What a round of waiting for that server's answer brought.
    Reply(ReplyEvent),
}

/// How far a query to the cloud has come.
#[derive(Clone, Copy, Debug, PartialEq, Eq, Structural)]
pub enum CloudQuery {
    New,
    /// It waits for the server that was elected.
    Choosing(Rounds),
    /// It has asked that server, and waits for the answer.
    Asked(Rounds),
    Over,
}

/// What to do next in a query to the cloud.
#[derive(Debug, PartialEq, Eq)]
pub enum QueryStep<T> {
    /// Send each message to its receiver, then wait for the elected server.
    Send(Vec<Msg>),
    /// Ask the server with this address, then wait for its answer.
    Ask(String),
    /// Wait on.
    Await,
    /// The query is over, with a result or without one.
    Return(Option<T>),
}

impl CloudQuery {
    /// Whether the event can come now.
    pub open spec fn accepts(self, event: QueryEvent) -> bool {
        match self {
            CloudQuery::New => event is Begin,
            CloudQuery::Choosing(rounds) => rounds.left > 0 && event is Choice,
            CloudQuery::Asked(rounds) => rounds.left > 0 && event is Reply,
            CloudQuery::Over => false,
        }
    }

    /// Whether the query waits for something.
    pub open spec fn goes_on(self) -> bool {
        match self {
            CloudQuery::Choosing(rounds) => rounds.left > 0,
            CloudQuery::Asked(rounds) => rounds.left > 0,
            _ => false,
        }
    }

    /// A query that has not begun.
    pub fn new() -> (query: CloudQuery)
        ensures
            query is New,
    {
        CloudQuery::New
    }

    /// Ends a round of waiting for an answer.
    fn settle<T>(&mut self, reply: Option<Option<T>>) -> (step: QueryStep<T>)
        requires
            *old(self) matches CloudQuery::Asked(rounds) && rounds.left > 0,
        ensures
            *old(self) matches CloudQuery::Asked(rounds) && after_answer(
                rounds,
                reply,
                *final(self),
                step,
            ),
    {
        let mut left: Rounds = match self {
            CloudQuery::Asked(r) => *r,
            _ => Rounds::new(1),
        };
        match left.settle(reply) {
            Wait::Again => {
                *self = CloudQuery::Asked(left);
                QueryStep::Await
            },
            Wait::Finished(result) => {
                *self = CloudQuery::Over;
                QueryStep::Return(result)
            },
        }
    }
}

/// Whether `next` and `step` are what a round of waiting for an answer leads
/// to, with `rounds` before it and the answer it brought, if any.
pub open spec fn after_answer<T>(
    rounds: Rounds,
    reply: Option<Option<T>>,
    next: CloudQuery,
    step: QueryStep<T>,
) -> bool {
    match after_round(rounds.left as int, reply) {
        Wait::Again => {
            &&& next matches CloudQuery::Asked(r) && r.left == rounds.left - 1
            &&& step is Await
        },
        Wait::Finished(result) => next is Over && step == QueryStep::Return(result),
    }
}

/// Whether `next` and `step` are what an event makes of a query. `reply` is
/// the answer that it brought, if any, and `rounds` how many rounds the query
/// waits for one.
pub open spec fn query_step<T>(
    client: &ClientBackend,
    query: CloudQuery,
    event: QueryEvent,
    reply: Option<Option<T>>,
    rounds: u32,
    next: CloudQuery,
    step: QueryStep<T>,
) -> bool {
    match (query, event) {
        (CloudQuery::New, QueryEvent::Begin) => {
            &&& next matches CloudQuery::Choosing(r) && r.left == CHOICE_ROUNDS
            &&& step matches QueryStep::Send(msgs) && {
                &&& msgs@.len() == client.cloud_servers@.len()
                &&& forall|i: int|
                    0 <= i < msgs@.len() ==> is_plain(
                        #[trigger] &msgs@[i],
                        client.cloud_addr@,
                        client.cloud_servers@[i].1@,
                    ) && msgs@[i].msg_type == Type::ClientRequest(QUERY_REQUEST)
            }
        },
        (CloudQuery::Choosing(left), QueryEvent::Choice(e)) => match choice_text(e) {
            Some(text) => {
                &&& next matches CloudQuery::Asked(r) && r.left == rounds
                &&& step matches QueryStep::Ask(server) && server@ == text
            },
            None => if left.left == 1 {
                next is Over && step == QueryStep::Return(None::<T>)
            } else {
                &&& next matches CloudQuery::Choosing(r) && r.left == left.left - 1
                &&& step is Await
            },
        },
        (CloudQuery::Asked(left), QueryEvent::Reply(_)) => after_answer(left, reply, next, step),
        _ => true,
    }
}

/// The text that a round brought, if it brought one: the address of the server
/// that was elected.
pub open spec fn choice_text(event: ChoiceEvent) -> Option<Seq<char>> {
    match event {
        ChoiceEvent::Received(bytes) => if valid_utf8(bytes@) {
            Some(decode_utf8(bytes@))
        } else {
            None
        },
        _ => None,
    }
}

/// The pending updates that a round brought, if it brought an answer. The
/// answer may be that there are none.
pub open spec fn pending_reply(event: QueryEvent) -> Option<Option<Vec<(String, Action)>>> {
    match event {
        QueryEvent::Reply(ReplyEvent::Received(Some(m))) => match m.msg_type {
            Type::ClientDirOfServQueryPendingReply(updates) => Some(updates),
            _ => None,
        },
        _ => None,
    }
}

/// The directory of clients that a round brought, if it brought one.
pub open spec fn directory_reply(event: QueryEvent) -> Option<Option<Vec<(SocketAddr, bool)>>> {
    match event {
        QueryEvent::Reply(ReplyEvent::Received(Some(m))) => match m.msg_type {
            Type::DirOfServQueryReply(clients) => Some(Some(clients)),
            _ => None,
        },
        _ => None,
    }
}

/// A picture to have encrypted.
#[derive(Debug, PartialEq, Eq)]
pub struct EncryptionJob {
    /// The number of the request.
    pub id: u32,
    /// The file to read.
    pub source: String,
    /// The name under which to send the picture.
    pub msg_id: String,
    /// The file for the encrypted picture.
    pub target: String,
}

impl EncryptionJob {
    /// Whether this job has the picture at `pic_path` encrypted under the
    /// number `id`.
    pub open spec fn encrypts(&self, client: &ClientBackend, pic_path: Seq<char>, id: int) -> bool {
        &&& self.id == id
        &&& self.msg_id@ == request_id_of(client.cloud_addr@, self.id)
        &&& file_name_of(pic_path) matches Some(name) && {
            &&& self.source@ == path_of(client.paths.high_res@, name)
            &&& self.target@ == path_of(client.paths.encrypted@, stem_of(name) + ".png"@)
        }
    }
}

/// How far the encryption of one picture has come.
#[derive(Debug, PartialEq, Eq)]
pub enum EncryptionPhase {
    /// The next picture can begin.
    Ready,
    /// It waits for the server that was elected.
    Choosing(Rounds, EncryptionJob),
    /// The server has the picture.
    Encrypting(EncryptionJob),
}

/// The encryption of a list of pictures, one after the other.
#[derive(Debug, PartialEq, Eq)]
pub struct EncryptionRun {
    pub pictures: Vec<String>,
    /// How many pictures have begun.
    pub next: usize,
    pub phase: EncryptionPhase,
}

/// What the encryption of a list of pictures is told.
#[derive(Debug, PartialEq, Eq)]
pub enum EncryptionEvent {
    /// To begin with the next picture.
    Continue,
    /// What a round of waiting for the elected server brought.
    Choice(ChoiceEvent),
    /// The picture that came back.
    Encrypted(Image),
}

/// What to do next in the encryption of a list of pictures.
#[derive(Debug, PartialEq, Eq)]
pub enum EncryptionStep {
    /// Send each message to its receiver, then wait for the elected server.
    Send(Vec<Msg>),
    /// Wait on.
    Await,
    /// No server was elected for this picture: continue with the next.
    NoServer,
    /// Send to the server with this address the picture in this file, under
    /// this name, then wait for the encrypted picture.
    SendPicture(String, String, String),
    /// Save the picture in this file, then continue with the next.
    Save(Image, String),
    /// The picture that came back lacks pixels.
    Incomplete,
    /// The path leads to no file.
    NoFile,
    /// All pictures have been dealt with.
    Done,
}

impl EncryptionRun {
    /// Whether no more pictures have begun than there are.
    pub open spec fn well_formed(&self) -> bool {
        self.next <= self.pictures@.len()
    }

    /// Whether the event can come now.
    pub open spec fn accepts(&self, event: EncryptionEvent) -> bool {
        &&& self.well_formed()
        &&& match self.phase {
            EncryptionPhase::Ready => event is Continue,
            EncryptionPhase::Choosing(rounds, job) => rounds.left > 0 && event is Choice,
            EncryptionPhase::Encrypting(job) => event is Encrypted,
        }
    }

    /// Whether a picture is left, and its path leads to a file.
    pub open spec fn has_next_file(&self) -> bool {
        self.next < self.pictures@.len() && file_name_of(
            self.pictures@[self.next as int]@,
        ) is Some
    }

    /// Whether a picture is left, and its path leads to a file: only then does
    /// the encryption use a number when it continues.
    pub fn names_next_file(&self) -> (names: bool)
        ensures
            names == self.has_next_file(),
    {
        self.next < self.pictures.len() && file_name(self.pictures[self.next].as_str()).is_some()
    }

    /// The encryption of the pictures whose paths stand in the lines of
    /// `contents`.
    pub fn new(contents: &str) -> (run: EncryptionRun)
        ensures
            texts(run.pictures@) == lines_of(contents@),
            run.next == 0,
            run.phase is Ready,
            run.well_formed(),
    {
        EncryptionRun {
            pictures: get_pic_paths(contents),
            next: 0,
            phase: EncryptionPhase::Ready,
        }
    }
}

/// Whether `after`, `next` and `step` are what an event makes of the client
/// `before` and the encryption `run`.
pub open spec fn encryption_step(
    before: &ClientBackend,
    run: &EncryptionRun,
    event: EncryptionEvent,
    after: &ClientBackend,
    next: &EncryptionRun,
    step: &EncryptionStep,
) -> bool {
    &&& next.pictures == run.pictures
    &&& next.well_formed()
    &&& match (run.phase, event) {
        (EncryptionPhase::Ready, EncryptionEvent::Continue) => if run.next == run.pictures@.len() {
            *after == *before && *next == *run && step is Done
        } else if file_name_of(run.pictures@[run.next as int]@) is None {
            *after == *before && *next == *run && step is NoFile
        } else {
            &&& after.uses_number(before)
            &&& next.next == run.next + 1
            &&& next.phase matches EncryptionPhase::Choosing(rounds, job) && rounds.left
                == CHOICE_ROUNDS && job.encrypts(
                before,
                run.pictures@[run.next as int]@,
                before.next_req_id as int,
            )
            &&& step matches EncryptionStep::Send(msgs) && msgs@.len()
                == before.cloud_servers@.len() && forall|i: int|
                0 <= i < msgs@.len() ==> is_plain(
                    #[trigger] &msgs@[i],
                    before.cloud_addr@,
                    before.cloud_servers@[i].1@,
                ) && msgs@[i].msg_type == Type::ClientRequest(before.next_req_id)
        },
        (EncryptionPhase::Choosing(rounds, job), EncryptionEvent::Choice(e)) => {
            &&& *after == *before
            &&& next.next == run.next
            &&& match choice_text(e) {
                Some(text) => {
                    &&& next.phase == EncryptionPhase::Encrypting(job)
                    &&& step matches EncryptionStep::SendPicture(server, source, msg_id) && server@
                        == text && source == job.source && msg_id == job.msg_id
                },
                None => if rounds.left == 1 {
                    next.phase is Ready && step is NoServer
                } else {
                    &&& next.phase matches EncryptionPhase::Choosing(r, j) && r.left == rounds.left
                        - 1 && j == job
                    &&& step is Await
                },
            }
        },
        (EncryptionPhase::Encrypting(job), EncryptionEvent::Encrypted(image)) => {
            &&& *after == *before
            &&& next.next == run.next
            &&& next.phase is Ready
            &&& if image.fits() {
                step matches EncryptionStep::Save(saved, file) && saved.same(&image) && file
                    == job.target
            } else {
                step is Incomplete
            }
        },
        _ => true,
    }
}

impl ClientBackend {
    /// Tells every server, at its election address, the same thing.
    pub fn send_init_request_to_cloud(&self, t: &Type) -> (msgs: Vec<Msg>)
        ensures
            msgs@.len() == self.cloud_servers@.len(),
            forall|i: int|
                0 <= i < msgs@.len() ==> is_plain(
                    #[trigger] &msgs@[i],
                    self.cloud_addr@,
                    self.cloud_servers@[i].1@,
                ) && msgs@[i].msg_type.same(t),
    {
        let mut msgs: Vec<Msg> = Vec::new();
        let mut i: usize = 0;
        while i < self.cloud_servers.len()
            invariant
                i <= self.cloud_servers@.len(),
                msgs@.len() == i,
                forall|j: int|
                    0 <= j < i ==> is_plain(
                        #[trigger] &msgs@[j],
                        self.cloud_addr@,
                        self.cloud_servers@[j].1@,
                    ) && msgs@[j].msg_type.same(t),
            decreases self.cloud_servers@.len() - i,
        {
            msgs.push(
                Msg {
                    sender: self.cloud_addr.clone(),
                    receiver: self.cloud_servers[i].1.clone(),
                    msg_type: t.clone(),
                    payload: None,
                },
            );
            i = i + 1;
        }
        msgs
    }

    /// Ends a round of waiting for the server that was elected. The result is
    /// the text of its address.
    pub fn chosen_server(rounds: &mut Rounds, event: ChoiceEvent) -> (wait: Wait<String>)
        requires
            old(rounds).left > 0,
        ensures
            final(rounds).left == old(rounds).left - 1,
            match choice_text(event) {
                Some(text) => wait matches Wait::Finished(Some(t)) && t@ == text,
                None => wait == after_round::<String>(old(rounds).left as int, None),
            },
    {
        let reply: Option<Option<String>> = match event {
            ChoiceEvent::Received(bytes) => match from_utf8(bytes.as_slice()) {
                Some(t) => Some(Some(t)),
                None => None,
            },
            _ => None,
        };
        rounds.settle(reply)
    }

    /// Begins a query, or ends a round of waiting for the server that was
    /// elected. Nothing happens before a query begins or after it has asked.
    fn query_server<T>(&self, query: &mut CloudQuery, event: QueryEvent, rounds: u32) -> (step:
        QueryStep<T>)
        requires
            old(query).accepts(event),
            !(event is Reply),
            rounds > 0,
        ensures
            query_step::<T>(
                self,
                *old(query),
                event,
                None,
                rounds,
                *final(query),
                step,
            ),
    {
        match event {
            QueryEvent::Begin => {
                *query = CloudQuery::Choosing(Rounds::new(CHOICE_ROUNDS));
                QueryStep::Send(
                    self.send_init_request_to_cloud(&Type::ClientRequest(QUERY_REQUEST)),
                )
            },
            QueryEvent::Choice(e) => {
                let mut left: Rounds = match query {
                    CloudQuery::Choosing(r) => *r,
                    _ => Rounds::new(1),
                };
                match ClientBackend::chosen_server(&mut left, e) {
                    Wait::Again => {
                        *query = CloudQuery::Choosing(left);
                        QueryStep::Await
                    },
                    Wait::Finished(Some(server)) => {
                        *query = CloudQuery::Asked(Rounds::new(rounds));
                        QueryStep::Ask(server)
                    },
                    Wait::Finished(None) => {
                        *query = CloudQuery::Over;
                        QueryStep::Return(None)
                    },
                }
            },
            QueryEvent::Reply(_) => QueryStep::Await,
        }
    }

    /// Takes a query for the updates that are pending for this client one step
    /// further.
    pub fn query_pending_updates(&self, query: &mut CloudQuery, event: QueryEvent) -> (step:
        QueryStep<Vec<(String, Action)>>)
        requires
            old(query).accepts(event),
        ensures
            query_step(
                self,
                *old(query),
                event,
                pending_reply(event),
                PENDING_ROUNDS,
                *final(query),
                step,
            ),
            step is Return <==> *final(query) is Over,
            step is Await || step is Ask || step is Send ==> final(query).goes_on(),
    {
        match event {
            QueryEvent::Reply(e) => {
                let reply: Option<Option<Vec<(String, Action)>>> = match e {
                    ReplyEvent::Received(Some(m)) => match m.msg_type {
                        Type::ClientDirOfServQueryPendingReply(updates) => Some(updates),
                        _ => None,
                    },
                    _ => None,
                };
                query.settle(reply)
            },
            _ => self.query_server(query, event, PENDING_ROUNDS),
        }
    }

    /// Takes a query for the directory of clients one step further.
    pub fn query_dir_of_serv(&self, query: &mut CloudQuery, event: QueryEvent) -> (step: QueryStep<
        Vec<(SocketAddr, bool)>,
    >)
        requires
            old(query).accepts(event),
        ensures
            query_step(
                self,
                *old(query),
                event,
                directory_reply(event),
                DIRECTORY_ROUNDS,
                *final(query),
                step,
            ),
            step is Return <==> *final(query) is Over,
            step is Await || step is Ask || step is Send ==> final(query).goes_on(),
    {
        match event {
            QueryEvent::Reply(e) => {
                let reply: Option<Option<Vec<(SocketAddr, bool)>>> = match e {
                    ReplyEvent::Received(Some(m)) => match m.msg_type {
                        Type::DirOfServQueryReply(clients) => Some(Some(clients)),
                        _ => None,
                    },
                    _ => None,
                };
                query.settle(reply)
            },
            _ => self.query_server(query, event, DIRECTORY_ROUNDS),
        }
    }

    /// What it takes to have a picture encrypted: a number for the request,
    /// the file to read, the name to send it under, and the file for the
    /// result. A path that leads to no file is no picture, and uses no number.
    pub fn encryption_job(&mut self, pic_path: &str) -> (job: Option<EncryptionJob>)
        requires
            file_name_of(pic_path@) is Some ==> old(self).next_req_id < u32::MAX,
        ensures
            job is Some <==> file_name_of(pic_path@) is Some,
            job is None ==> *final(self) == *old(self),
            job matches Some(j) ==> j.encrypts(old(self), pic_path@, old(self).next_req_id as int)
                && final(self).uses_number(old(self)),
    {
        let name = match file_name(pic_path) {
            None => {
                return None;
            },
            Some(n) => n,
        };
        let encrypted = file_stem(name.as_str()).concat(".png");
        let id = self.get_next_req_id();
        Some(
            EncryptionJob {
                id,
                source: path(self.paths.high_res.as_str(), name.as_str()),
                msg_id: request_id(&self.cloud_addr, id),
                target: path(self.paths.encrypted.as_str(), encrypted.as_str()),
            },
        )
    }

    /// Takes the encryption of a list of pictures one step further. Each
    /// picture gets a number, whether a server is elected for it or not.
    pub fn encrypt(&mut self, run: &mut EncryptionRun, event: EncryptionEvent) -> (step:
        EncryptionStep)
        requires
            old(run).accepts(event),
            event is Continue && old(run).has_next_file() ==> old(self).next_req_id < u32::MAX,
        ensures
            encryption_step(old(self), old(run), event, final(self), final(run), &step),
    {
        let mut phase: EncryptionPhase = EncryptionPhase::Ready;
        std::mem::swap(&mut phase, &mut run.phase);
        match event {
            EncryptionEvent::Continue => {
                if run.next == run.pictures.len() {
                    return EncryptionStep::Done;
                }
                match self.encryption_job(run.pictures[run.next].as_str()) {
                    None => EncryptionStep::NoFile,
                    Some(job) => {
                        let msgs = self.send_init_request_to_cloud(&Type::ClientRequest(job.id));
                        run.next = run.next + 1;
                        run.phase = EncryptionPhase::Choosing(Rounds::new(CHOICE_ROUNDS), job);
                        EncryptionStep::Send(msgs)
                    },
                }
            },
            EncryptionEvent::Choice(e) => match phase {
                EncryptionPhase::Choosing(rounds, job) => {
                    let mut left: Rounds = rounds;
                    match ClientBackend::chosen_server(&mut left, e) {
                        Wait::Again => {
                            run.phase = EncryptionPhase::Choosing(left, job);
                            EncryptionStep::Await
                        },
                        Wait::Finished(None) => EncryptionStep::NoServer,
                        Wait::Finished(Some(server)) => {
                            let source = job.source.clone();
                            let msg_id = job.msg_id.clone();
                            run.phase = EncryptionPhase::Encrypting(job);
                            EncryptionStep::SendPicture(server, source, msg_id)
                        },
                    }
                },
                _ => EncryptionStep::Await,
            },
            EncryptionEvent::Encrypted(image) => match phase {
                EncryptionPhase::Encrypting(job) => match image.checked() {
                    None => EncryptionStep::Incomplete,
                    Some(checked) => EncryptionStep::Save(checked, job.target),
                },
                _ => EncryptionStep::Await,
            },
        }
    }
}

} // verus!
