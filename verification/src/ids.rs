//! The names under which requests and shared pictures are known.

use crate::address::{AddrView, SocketAddr};
use crate::text::{
    decimal,
    lemma_split_first,
    lemma_split_last,
    lemma_split_none,
    split_at_each,
    u32_to_text,
};
use vstd::prelude::*;
use vstd::string::*;

verus! {

/// The name of request number `id` of a client: its address, a colon and the
/// number.
pub open spec fn request_id_of(client: AddrView, id: u32) -> Seq<char> {
    client.text() + seq![':'] + decimal(id as nat)
}

/// The name of a shared picture: its owner, the peer it is shared with, and
/// its file name, with `&` between them.
pub open spec fn image_id_of(owner: Seq<char>, peer: Seq<char>, name: Seq<char>) -> Seq<char> {
    owner + seq!['&'] + peer + seq!['&'] + name
}

/// `a`, the separator `sep` and `b`.
pub fn join(a: &str, sep: &str, b: &str) -> (t: String)
    ensures
        t@ == a@ + sep@ + b@,
{
    a.to_owned().concat(sep).concat(b)
}

/// The name of request number `id` of a client.
pub fn request_id(client: &SocketAddr, id: u32) -> (t: String)
    ensures
        t@ == request_id_of(client@, id),
{
    proof {
        reveal_strlit(":");
        assert(":"@ == seq![':']);
    }
    join(client.text().as_str(), ":", u32_to_text(id).as_str())
}

/// The name of a shared picture.
pub fn image_id(owner: &str, peer: &str, name: &str) -> (t: String)
    ensures
        t@ == image_id_of(owner@, peer@, name@),
{
    proof {
        reveal_strlit("&");
        assert("&"@ == seq!['&']);
    }
    join(owner, "&", peer).concat("&").concat(name)
}

/// `dir`, a slash and `name`.
pub open spec fn path_of(dir: Seq<char>, name: Seq<char>) -> Seq<char> {
    dir + seq!['/'] + name
}

/// `dir`, a slash and `name`.
pub fn path(dir: &str, name: &str) -> (t: String)
    ensures
        t@ == path_of(dir@, name@),
{
    proof {
        reveal_strlit("/");
        assert("/"@ == seq!['/']);
    }
    join(dir, "/", name)
}

/// The file name of a shared picture is the last part of its name.
pub proof fn lemma_image_id_name(owner: Seq<char>, peer: Seq<char>, name: Seq<char>)
    requires
        !name.contains('&'),
    ensures
        split_at_each(image_id_of(owner, peer, name), '&').last() == name,
{
    lemma_split_last(owner + seq!['&'] + peer, '&', name);
}

/// The parts of a shared picture's name are its owner, the peer and the file
/// name.
pub proof fn lemma_image_id_parts(owner: Seq<char>, peer: Seq<char>, name: Seq<char>)
    requires
        !owner.contains('&'),
        !peer.contains('&'),
        !name.contains('&'),
    ensures
        split_at_each(image_id_of(owner, peer, name), '&') == seq![owner, peer, name],
{
    let tail = peer + seq!['&'] + name;
    assert(image_id_of(owner, peer, name) == owner + seq!['&'] + tail);
    lemma_split_first(owner, '&', tail);
    lemma_split_first(peer, '&', name);
    lemma_split_none(name, '&');
    assert(seq![owner] + (seq![peer] + seq![name]) == seq![owner, peer, name]);
}

} // verus!
