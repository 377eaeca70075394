//! What clients and servers tell each other.

use crate::address::SocketAddr;
use crate::picture::Image;
use crate::priority::Priority;
use vstd::prelude::*;

verus! {

/// A change of the number of views that a shared picture allows.
#[derive(Clone, Copy, Debug, PartialEq, Eq, Structural)]
pub enum Action {
    Increment(u32),
    Decrement(u32),
    Revoke,
}

/// The kinds of messages. A block of a large message is carried beside the
/// message: only its kind is known here. Pending updates are listed by the
/// client that they wait for.
#[derive(Debug, PartialEq, Eq)]
pub enum Type {
    ClientRequest(u32),
    ElectionRequest(Priority),
    OKMsg(Priority),
    CoordinatorBrdCast(String),
    Fail(u32),
    Fragment,
    Ack(String, u32),
    LowResImgReq,
    LowResImgReply,
    ImageRequest(String, u32),
    SharedImage(String, Image, u32),
    UpdateAccessRequest(String, Action),
    UpdateAccess(String, Action),
    DirOfServQuery,
    DirOfServQueryReply(Vec<(SocketAddr, bool)>),
    DirOfServJoin,
    DirOfServLeave,
    ServerDirOfServQueryPending,
    ServerDirOfServQueryPendingReply(Vec<(SocketAddr, Vec<(String, Action)>)>),
    ClientDirOfServQueryPending,
    ClientDirOfServQueryPendingReply(Option<Vec<(String, Action)>>),
}

/// A message with its sender and receiver.
#[derive(Debug, PartialEq, Eq)]
pub struct Msg {
    pub sender: SocketAddr,
    pub receiver: SocketAddr,
    pub msg_type: Type,
    pub payload: Option<String>,
}

/// Whether both lists hold the same updates for the same clients.
pub open spec fn same_pending(
    list1: Seq<(SocketAddr, Vec<(String, Action)>)>,
    list2: Seq<(SocketAddr, Vec<(String, Action)>)>,
) -> bool {
    &&& list1.len() == list2.len()
    &&& forall|i: int|
        0 <= i < list1.len() ==> (#[trigger] list1[i]).0 == list2[i].0 && list1[i].1@
            == list2[i].1@
}

impl Type {
    /// Whether both say the same.
    pub open spec fn same(&self, other: &Type) -> bool {
        match (*self, *other) {
            (Type::SharedImage(name1, image1, access1), Type::SharedImage(name2, image2, access2)) => {
                name1 == name2 && image1.same(&image2) && access1 == access2
            },
            (Type::DirOfServQueryReply(list1), Type::DirOfServQueryReply(list2)) => list1@ == list2@,
            (
                Type::ServerDirOfServQueryPendingReply(list1),
                Type::ServerDirOfServQueryPendingReply(list2),
            ) => same_pending(list1@, list2@),
            (
                Type::ClientDirOfServQueryPendingReply(Some(list1)),
                Type::ClientDirOfServQueryPendingReply(Some(list2)),
            ) => list1@ == list2@,
            _ => *self == *other,
        }
    }
}

/// A copy of a list of clients.
fn copy_clients(list: &Vec<(SocketAddr, bool)>) -> (copy: Vec<(SocketAddr, bool)>)
    ensures
        copy@ == list@,
{
    let mut copy: Vec<(SocketAddr, bool)> = Vec::new();
    let mut i: usize = 0;
    while i < list.len()
        invariant
            i <= list@.len(),
            copy@ == list@.take(i as int),
        decreases list@.len() - i,
    {
        copy.push((list[i].0.clone(), list[i].1));
        i = i + 1;
    }
    copy
}

/// A copy of a list of updates.
fn copy_updates(list: &Vec<(String, Action)>) -> (copy: Vec<(String, Action)>)
    ensures
        copy@ == list@,
{
    let mut copy: Vec<(String, Action)> = Vec::new();
    let mut i: usize = 0;
    while i < list.len()
        invariant
            i <= list@.len(),
            copy@ == list@.take(i as int),
        decreases list@.len() - i,
    {
        copy.push((list[i].0.clone(), list[i].1));
        i = i + 1;
    }
    copy
}

/// A copy of a list of updates for each client.
fn copy_pending(list: &Vec<(SocketAddr, Vec<(String, Action)>)>) -> (copy: Vec<
    (SocketAddr, Vec<(String, Action)>),
>)
    ensures
        same_pending(copy@, list@),
{
    let mut copy: Vec<(SocketAddr, Vec<(String, Action)>)> = Vec::new();
    let mut i: usize = 0;
    while i < list.len()
        invariant
            i <= list@.len(),
            same_pending(copy@, list@.take(i as int)),
        decreases list@.len() - i,
    {
        copy.push((list[i].0.clone(), copy_updates(&list[i].1)));
        i = i + 1;
    }
    copy
}

impl Clone for Type {
    fn clone(&self) -> (copy: Self)
        ensures
            copy.same(self),
    {
        match self {
            Type::ClientRequest(id) => Type::ClientRequest(*id),
            Type::ElectionRequest(priority) => Type::ElectionRequest(*priority),
            Type::OKMsg(priority) => Type::OKMsg(*priority),
            Type::CoordinatorBrdCast(leader) => Type::CoordinatorBrdCast(leader.clone()),
            Type::Fail(time) => Type::Fail(*time),
            Type::Fragment => Type::Fragment,
            Type::Ack(id, block) => Type::Ack(id.clone(), *block),
            Type::LowResImgReq => Type::LowResImgReq,
            Type::LowResImgReply => Type::LowResImgReply,
            Type::ImageRequest(name, access) => Type::ImageRequest(name.clone(), *access),
            Type::SharedImage(name, image, access) => Type::SharedImage(
                name.clone(),
                Image { dims: image.dims, data: image.data.clone() },
                *access,
            ),
            Type::UpdateAccessRequest(id, action) => Type::UpdateAccessRequest(
                id.clone(),
                *action,
            ),
            Type::UpdateAccess(id, action) => Type::UpdateAccess(id.clone(), *action),
            Type::DirOfServQuery => Type::DirOfServQuery,
            Type::DirOfServQueryReply(list) => Type::DirOfServQueryReply(copy_clients(list)),
            Type::DirOfServJoin => Type::DirOfServJoin,
            Type::DirOfServLeave => Type::DirOfServLeave,
            Type::ServerDirOfServQueryPending => Type::ServerDirOfServQueryPending,
            Type::ServerDirOfServQueryPendingReply(list) => {
                Type::ServerDirOfServQueryPendingReply(copy_pending(list))
            },
            Type::ClientDirOfServQueryPending => Type::ClientDirOfServQueryPending,
            Type::ClientDirOfServQueryPendingReply(None) => Type::ClientDirOfServQueryPendingReply(
                None,
            ),
            Type::ClientDirOfServQueryPendingReply(Some(list)) => {
                Type::ClientDirOfServQueryPendingReply(Some(copy_updates(list)))
            },
        }
    }
}

} // verus!
