//! Which pictures are shared with whom, and with how many views.

use crate::address::{AddrView, SocketAddr};
use crate::text::same_text;
use vstd::prelude::*;

verus! {

/// The first position of `x` in `s`, or the length of `s` where there is none.
pub open spec fn first_index<A>(s: Seq<A>, x: A) -> int
    decreases s.len(),
{
    if s.len() == 0 || s[0] == x {
        0
    } else {
        1 + first_index(s.skip(1), x)
    }
}

/// `first_index` gives the first position.
pub proof fn lemma_first_index<A>(s: Seq<A>, x: A)
    ensures
        0 <= first_index(s, x) <= s.len(),
        forall|j: int| 0 <= j < first_index(s, x) ==> s[j] != x,
        first_index(s, x) < s.len() ==> s[first_index(s, x)] == x,
    decreases s.len(),
{
    if s.len() > 0 && s[0] != x {
        let rest = s.skip(1);
        lemma_first_index(rest, x);
        assert forall|j: int| 0 <= j < first_index(s, x) implies s[j] != x by {
            if j > 0 {
                assert(s[j] == rest[j - 1]);
            }
        }
    }
}

/// A position before which `x` does not occur, and at which it occurs or the
/// sequence ends, is the one `first_index` gives.
proof fn lemma_first_index_is<A>(s: Seq<A>, x: A, i: int)
    requires
        0 <= i <= s.len(),
        forall|j: int| 0 <= j < i ==> s[j] != x,
        i < s.len() ==> s[i] == x,
    ensures
        first_index(s, x) == i,
{
    lemma_first_index(s, x);
    if first_index(s, x) < i {
        assert(s[first_index(s, x)] != x);
    }
}

/// Pictures with their number of views, as texts and numbers.
pub open spec fn grants(list: Seq<(String, u32)>) -> Seq<(Seq<char>, u32)> {
    list.map_values(|g: (String, u32)| (g.0@, g.1))
}

/// The names in a list of grants.
pub open spec fn names(list: Seq<(Seq<char>, u32)>) -> Seq<Seq<char>> {
    list.map_values(|g: (Seq<char>, u32)| g.0)
}

/// `list` with `access` views for `id`: in the place where `id` first stands,
/// or at the end where it does not stand yet.
pub open spec fn granted(list: Seq<(Seq<char>, u32)>, id: Seq<char>, access: u32) -> Seq<
    (Seq<char>, u32),
> {
    let i = first_index(names(list), id);
    if i < list.len() {
        list.update(i, (id, access))
    } else {
        list.push((id, access))
    }
}

/// For each peer, the pictures shared with it or received from it, each with
/// its number of views, in the order in which they were first recorded.
#[derive(Debug)]
pub struct SharedImages {
    entries: Vec<(SocketAddr, Vec<(String, u32)>)>,
}

impl SharedImages {
    closed spec fn peers(&self) -> Seq<AddrView> {
        self.entries@.map_values(|e: (SocketAddr, Vec<(String, u32)>)| e.0@)
    }

    /// No peer has two lists, and no list names a picture twice.
    pub closed spec fn well_formed(&self) -> bool {
        &&& self.peers().no_duplicates()
        &&& forall|i: int|
            0 <= i < self.entries@.len() ==> names(
                grants((#[trigger] self.entries@[i]).1@),
            ).no_duplicates()
    }

    /// The list of one peer; it is empty where nothing has been recorded.
    pub open spec fn list(&self, peer: AddrView) -> Seq<(Seq<char>, u32)> {
        if self@.contains_key(peer) {
            self@[peer]
        } else {
            Seq::empty()
        }
    }
}

impl View for SharedImages {
    type V = Map<AddrView, Seq<(Seq<char>, u32)>>;

    closed spec fn view(&self) -> Map<AddrView, Seq<(Seq<char>, u32)>> {
        Map::new(
            |peer: AddrView| first_index(self.peers(), peer) < self.entries@.len(),
            |peer: AddrView| grants(self.entries@[first_index(self.peers(), peer)].1@),
        )
    }
}

/// Records `access` views for `id` in one list.
fn grant(list: &mut Vec<(String, u32)>, id: String, access: u32)
    ensures
        grants(final(list)@) == granted(grants(old(list)@), id@, access),
        names(grants(old(list)@)).no_duplicates() ==> names(grants(final(list)@)).no_duplicates(),
{
    let ghost before = grants(list@);
    let mut i: usize = 0;
    while i < list.len() && !same_text(list[i].0.as_str(), id.as_str())
        invariant
            i <= list@.len(),
            before == grants(list@),
            list@ == old(list)@,
            forall|j: int| 0 <= j < i ==> names(before)[j] != id@,
        decreases list@.len() - i,
    {
        i = i + 1;
    }
    proof {
        lemma_first_index_is(names(before), id@, i as int);
    }
    let ghost key = id@;
    if i < list.len() {
        list[i] = (id, access);
    } else {
        list.push((id, access));
    }
    proof {
        assert(grants(list@) == granted(before, key, access));
        if names(before).no_duplicates() {
            if i < before.len() {
                assert(names(grants(list@)) == names(before));
            } else {
                assert(names(grants(list@)) == names(before).push(key));
            }
        }
    }
}

impl SharedImages {
    /// Nothing is shared yet.
    pub fn new() -> (shared: SharedImages)
        ensures
            shared.well_formed(),
            shared@ == Map::<AddrView, Seq<(Seq<char>, u32)>>::empty(),
    {
        let shared = SharedImages { entries: Vec::new() };
        proof {
            assert(shared@ == Map::<AddrView, Seq<(Seq<char>, u32)>>::empty());
        }
        shared
    }

    fn position(&self, peer: &SocketAddr) -> (i: usize)
        ensures
            i == first_index(self.peers(), peer@),
            i <= self.entries@.len(),
    {
        let mut i: usize = 0;
        while i < self.entries.len() && !self.entries[i].0.same(peer)
            invariant
                i <= self.entries@.len(),
                forall|j: int| 0 <= j < i ==> self.peers()[j] != peer@,
            decreases self.entries@.len() - i,
        {
            i = i + 1;
        }
        proof {
            lemma_first_index_is(self.peers(), peer@, i as int);
        }
        i
    }

    /// The pictures recorded for `peer`, if any were.
    pub fn images(&self, peer: &SocketAddr) -> (list: Option<&Vec<(String, u32)>>)
        ensures
            list is Some <==> self@.contains_key(peer@),
            list matches Some(l) ==> grants(l@) == self@[peer@],
    {
        let i = self.position(peer);
        if i < self.entries.len() {
            Some(&self.entries[i].1)
        } else {
            None
        }
    }

    /// Records that the picture `id` has `access` views for `peer`.
    pub fn record(&mut self, peer: &SocketAddr, id: String, access: u32)
        requires
            old(self).well_formed(),
        ensures
            final(self).well_formed(),
            final(self)@ == old(self)@.insert(
                peer@,
                granted(old(self).list(peer@), id@, access),
            ),
    {
        let ghost before = *self;
        let ghost key = id@;
        let i = self.position(peer);
        if i == self.entries.len() {
            let mut list: Vec<(String, u32)> = Vec::new();
            proof {
                assert(grants(list@) == Seq::<(Seq<char>, u32)>::empty());
                assert(names(grants(list@)).no_duplicates());
            }
            grant(&mut list, id, access);
            self.entries.push((peer.clone(), list));
        } else {
            grant(&mut self.entries[i].1, id, access);
        }
        proof {
            lemma_first_index(before.peers(), peer@);
            lemma_record(before, *self, peer@, key, access, i as int);
        }
    }
}

/// What replacing or adding one list does to the whole.
proof fn lemma_record(
    before: SharedImages,
    after: SharedImages,
    peer: AddrView,
    id: Seq<char>,
    access: u32,
    i: int,
)
    requires
        before.well_formed(),
        i == first_index(before.peers(), peer),
        i <= before.entries@.len(),
        after.entries@.len() == if i == before.entries@.len() {
            i + 1
        } else {
            before.entries@.len() as int
        },
        after.entries@[i].0@ == peer,
        grants(after.entries@[i].1@) == granted(before.list(peer), id, access),
        names(grants(after.entries@[i].1@)).no_duplicates(),
        forall|j: int|
            0 <= j < before.entries@.len() && j != i ==> after.entries@[j] == before.entries@[j],
    ensures
        after.well_formed(),
        after@ == before@.insert(peer, granted(before.list(peer), id, access)),
{
    let old_peers = before.peers();
    let new_peers = after.peers();
    lemma_first_index(old_peers, peer);
    if i == before.entries@.len() {
        assert(new_peers == old_peers.push(peer));
    } else {
        assert(new_peers == old_peers);
    }
    assert(new_peers.no_duplicates());
    assert forall|j: int| 0 <= j < after.entries@.len() implies names(
        grants((#[trigger] after.entries@[j]).1@),
    ).no_duplicates() by {
        if j != i {
            assert(after.entries@[j] == before.entries@[j]);
        }
    }
    let expected = before@.insert(peer, granted(before.list(peer), id, access));
    assert forall|p: AddrView| after@.contains_key(p) <==> expected.contains_key(p) by {
        lemma_first_index(old_peers, p);
        lemma_first_index(new_peers, p);
        lemma_same_position(old_peers, new_peers, p, peer, i);
    }
    assert forall|p: AddrView| after@.contains_key(p) implies after@[p] == expected[p] by {
        lemma_first_index(old_peers, p);
        lemma_first_index(new_peers, p);
        lemma_same_position(old_peers, new_peers, p, peer, i);
    }
    assert(after@ == expected);
}

/// Where each peer stands before and after one is written at position `i`.
proof fn lemma_same_position(
    old_peers: Seq<AddrView>,
    new_peers: Seq<AddrView>,
    p: AddrView,
    peer: AddrView,
    i: int,
)
    requires
        i == first_index(old_peers, peer),
        new_peers == old_peers || (i == old_peers.len() && new_peers == old_peers.push(peer)),
    ensures
        p == peer && i < new_peers.len() ==> first_index(new_peers, p) == i,
        p != peer && first_index(old_peers, p) < old_peers.len() ==> first_index(new_peers, p)
            == first_index(old_peers, p),
        p != peer && first_index(old_peers, p) >= old_peers.len() ==> first_index(new_peers, p)
            >= new_peers.len(),
{
    lemma_first_index(old_peers, p);
    lemma_first_index(old_peers, peer);
    lemma_first_index(new_peers, p);
    if p == peer {
        if i < new_peers.len() {
            lemma_first_index_is(new_peers, p, i);
        }
    } else if first_index(old_peers, p) < old_peers.len() {
        lemma_first_index_is(new_peers, p, first_index(old_peers, p));
    } else {
        lemma_first_index_is(new_peers, p, new_peers.len() as int);
    }
}

/// After a grant the list names `id` with exactly the views granted.
pub proof fn lemma_granted(list: Seq<(Seq<char>, u32)>, id: Seq<char>, access: u32)
    ensures
        first_index(names(granted(list, id, access)), id) < granted(list, id, access).len(),
        granted(list, id, access)[first_index(names(granted(list, id, access)), id)] == (id, access),
{
    let i = first_index(names(list), id);
    let after = granted(list, id, access);
    lemma_first_index(names(list), id);
    assert forall|j: int| 0 <= j < i implies names(after)[j] != id by {
        assert(names(after)[j] == names(list)[j]);
    }
    assert(names(after)[i] == id);
    lemma_first_index_is(names(after), id, i);
}

} // verus!
