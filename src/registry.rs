//! The torrent's registry of live sessions: at most one handle per peer, the
//! last registration of a peer replacing the earlier one.
use vstd::prelude::*;

use crate::peer_id::PeerId;

verus! {

/// The peers that the registry holds, with a handle to each one's session.
pub struct PeerRegistry<H> {
    entries: Vec<(PeerId, H)>,
}

/// Whether `entries` holds an entry for `key`.
pub open spec fn has_key<H>(entries: Seq<(PeerId, H)>, key: Seq<u8>) -> bool {
    exists|i: int| 0 <= i < entries.len() && (#[trigger] entries[i]).0@ == key
}

/// The entries as a map from a peer's bytes to its handle.
pub open spec fn entries_map<H>(entries: Seq<(PeerId, H)>) -> Map<Seq<u8>, H> {
    Map::new(
        |key: Seq<u8>| has_key(entries, key),
        |key: Seq<u8>|
            entries[choose|i: int| 0 <= i < entries.len() && (#[trigger] entries[i]).0@ == key].1,
    )
}

/// No two entries are for the same peer.
pub open spec fn keys_unique<H>(entries: Seq<(PeerId, H)>) -> bool {
    forall|i: int, j: int|
        0 <= i < entries.len() && 0 <= j < entries.len() && i != j ==> (#[trigger] entries[i]).0@
            != (#[trigger] entries[j]).0@
}

proof fn lemma_value_at<H>(entries: Seq<(PeerId, H)>, i: int)
    requires
        keys_unique(entries),
        0 <= i < entries.len(),
    ensures
        entries_map(entries).contains_key(entries[i].0@),
        entries_map(entries)[entries[i].0@] == entries[i].1,
{
    let k = entries[i].0@;
    assert(has_key(entries, k));
    let j = choose|j: int| 0 <= j < entries.len() && (#[trigger] entries[j]).0@ == k;
    assert(i == j);
}

impl<H> View for PeerRegistry<H> {
    type V = Map<Seq<u8>, H>;

    closed spec fn view(&self) -> Map<Seq<u8>, H> {
        entries_map(self.entries@)
    }
}

impl<H> PeerRegistry<H> {
    /// No two entries are for the same peer.
    pub closed spec fn wf(&self) -> bool {
        keys_unique(self.entries@)
    }

    /// An empty registry.
    pub fn new() -> (r: PeerRegistry<H>)
        ensures
            r.wf(),
            r@ == Map::<Seq<u8>, H>::empty(),
    {
        let r = PeerRegistry { entries: Vec::new() };
        assert(r@ =~= Map::<Seq<u8>, H>::empty());
        r
    }

    fn find(&self, peer: &PeerId) -> (r: Option<usize>)
        requires
            self.wf(),
        ensures
            match r {
                Some(i) => i < self.entries@.len() && self.entries@[i as int].0@ == peer@,
                None => !has_key(self.entries@, peer@),
            },
    {
        let mut i: usize = 0;
        while i < self.entries.len()
            invariant
                i <= self.entries@.len(),
                forall|j: int| 0 <= j < i ==> (#[trigger] self.entries@[j]).0@ != peer@,
            decreases self.entries@.len() - i,
        {
            if self.entries[i].0 == *peer {
                return Some(i);
            }
            i = i + 1;
        }
        None
    }

    /// Whether the registry holds the peer.
    pub fn contains(&self, peer: &PeerId) -> (r: bool)
        requires
            self.wf(),
        ensures
            r == self@.contains_key(peer@),
    {
        match self.find(peer) {
            Some(i) => {
                proof {
                    lemma_value_at(self.entries@, i as int);
                }
                true
            },
            None => false,
        }
    }

    /// The handle of the peer's session, if the registry holds the peer.
    pub fn get(&self, peer: &PeerId) -> (r: Option<&H>)
        requires
            self.wf(),
        ensures
            match r {
                Some(h) => self@.contains_key(peer@) && *h == self@[peer@],
                None => !self@.contains_key(peer@),
            },
    {
        match self.find(peer) {
            Some(i) => {
                proof {
                    lemma_value_at(self.entries@, i as int);
                }
                Some(&self.entries[i].1)
            },
            None => None,
        }
    }

    /// Registers the peer's session, replacing an earlier one of the peer.
    pub fn insert(&mut self, peer: PeerId, handle: H)
        requires
            old(self).wf(),
        ensures
            final(self).wf(),
            final(self)@ == old(self)@.insert(peer@, handle),
    {
        let ghost before = self.entries@;
        match self.find(&peer) {
            Some(i) => {
                let _ = self.entries.remove(i);
                self.entries.insert(i, (peer, handle));
                let ghost after = self.entries@;
                assert(after =~= before.update(i as int, (peer, handle)));
                assert forall|a: int, b: int|
                    0 <= a < after.len() && 0 <= b < after.len() && a != b implies (
                #[trigger] after[a]).0@ != (#[trigger] after[b]).0@ by {
                    if a != i && b != i {
                        assert(after[a] == before[a] && after[b] == before[b]);
                    }
                }
                assert forall|k: Seq<u8>| #[trigger]
                    entries_map(after).contains_key(k) == before_insert_contains(before, peer@, k)
                by {
                    if has_key(after, k) {
                        let j = choose|j: int| 0 <= j < after.len() && (#[trigger] after[j]).0@ == k;
                        if j != i {
                            assert(before[j] == after[j]);
                        }
                    }
                    if has_key(before, k) {
                        let j = choose|j: int| 0 <= j < before.len() && (#[trigger] before[j]).0@ == k;
                        if j != i {
                            assert(before[j] == after[j]);
                        } else {
                            assert(after[i as int].0@ == k);
                        }
                    }
                    if k == peer@ {
                        assert(after[i as int].0@ == k);
                    }
                }
                assert forall|k: Seq<u8>| #[trigger] entries_map(after).contains_key(k)
                    implies entries_map(after)[k] == entries_map(before).insert(peer@, handle)[k] by {
                    let j = choose|j: int| 0 <= j < after.len() && (#[trigger] after[j]).0@ == k;
                    lemma_value_at(after, j);
                    if j != i {
                        assert(before[j] == after[j]);
                        lemma_value_at(before, j);
                    }
                }
                assert(entries_map(after) =~= entries_map(before).insert(peer@, handle));
            },
            None => {
                self.entries.push((peer, handle));
                let ghost after = self.entries@;
                assert(after =~= before.push((peer, handle)));
                assert forall|a: int, b: int|
                    0 <= a < after.len() && 0 <= b < after.len() && a != b implies (
                #[trigger] after[a]).0@ != (#[trigger] after[b]).0@ by {
                    if a < before.len() && b < before.len() {
                        assert(after[a] == before[a] && after[b] == before[b]);
                    } else if a < before.len() {
                        assert(after[a] == before[a]);
                    } else {
                        assert(after[b] == before[b]);
                    }
                }
                assert forall|k: Seq<u8>| #[trigger]
                    entries_map(after).contains_key(k) == before_insert_contains(before, peer@, k)
                by {
                    if has_key(after, k) {
                        let j = choose|j: int| 0 <= j < after.len() && (#[trigger] after[j]).0@ == k;
                        if j < before.len() {
                            assert(before[j] == after[j]);
                        }
                    }
                    if has_key(before, k) {
                        let j = choose|j: int| 0 <= j < before.len() && (#[trigger] before[j]).0@ == k;
                        assert(before[j] == after[j]);
                    }
                    if k == peer@ {
                        assert(after[before.len() as int].0@ == k);
                    }
                }
                assert forall|k: Seq<u8>| #[trigger] entries_map(after).contains_key(k)
                    implies entries_map(after)[k] == entries_map(before).insert(peer@, handle)[k] by {
                    let j = choose|j: int| 0 <= j < after.len() && (#[trigger] after[j]).0@ == k;
                    lemma_value_at(after, j);
                    if j < before.len() {
                        assert(before[j] == after[j]);
                        lemma_value_at(before, j);
                    }
                }
                assert(entries_map(after) =~= entries_map(before).insert(peer@, handle));
            },
        }
    }

    /// Removes the peer, if the registry holds it.
    pub fn remove(&mut self, peer: &PeerId)
        requires
            old(self).wf(),
        ensures
            final(self).wf(),
            final(self)@ == old(self)@.remove(peer@),
    {
        let ghost before = self.entries@;
        match self.find(peer) {
            Some(i) => {
                let _ = self.entries.remove(i);
                let ghost after = self.entries@;
                assert(after =~= before.remove(i as int));
                assert forall|a: int| 0 <= a < after.len() implies #[trigger] after[a] == before[if a
                    < i {
                    a
                } else {
                    a + 1
                }] by {}
                assert forall|a: int, b: int|
                    0 <= a < after.len() && 0 <= b < after.len() && a != b implies (
                #[trigger] after[a]).0@ != (#[trigger] after[b]).0@ by {
                    let a2 = if a < i { a } else { a + 1 };
                    let b2 = if b < i { b } else { b + 1 };
                    assert(after[a] == before[a2] && after[b] == before[b2]);
                }
                assert forall|k: Seq<u8>| #[trigger]
                    entries_map(after).contains_key(k) == (has_key(before, k) && k != peer@) by {
                    if has_key(after, k) {
                        let j = choose|j: int| 0 <= j < after.len() && (#[trigger] after[j]).0@ == k;
                        let j2 = if j < i { j } else { j + 1 };
                        assert(after[j] == before[j2]);
                    }
                    if has_key(before, k) && k != peer@ {
                        let j = choose|j: int| 0 <= j < before.len() && (#[trigger] before[j]).0@ == k;
                        if j < i {
                            assert(after[j] == before[j]);
                        } else {
                            assert(after[j - 1] == before[j]);
                        }
                    }
                }
                assert forall|k: Seq<u8>| #[trigger] entries_map(after).contains_key(k)
                    implies entries_map(after)[k] == entries_map(before)[k] by {
                    let j = choose|j: int| 0 <= j < after.len() && (#[trigger] after[j]).0@ == k;
                    lemma_value_at(after, j);
                    let j2 = if j < i { j } else { j + 1 };
                    assert(after[j] == before[j2]);
                    lemma_value_at(before, j2);
                }
                assert(entries_map(after) =~= entries_map(before).remove(peer@));
            },
            None => {
                assert(entries_map(before) =~= entries_map(before).remove(peer@));
            },
        }
    }

    /// The registered peers, each once.
    pub fn peers(&self) -> (r: Vec<PeerId>)
        requires
            self.wf(),
        ensures
            r@.map_values(|p: PeerId| p@).no_duplicates(),
            r@.map_values(|p: PeerId| p@).to_set() == self@.dom(),
    {
        let mut out: Vec<PeerId> = Vec::new();
        let mut i: usize = 0;
        while i < self.entries.len()
            invariant
                i <= self.entries@.len(),
                keys_unique(self.entries@),
                out@.len() == i,
                forall|j: int| 0 <= j < i ==> (#[trigger] out@[j])@ == self.entries@[j].0@,
            decreases self.entries@.len() - i,
        {
            out.push(self.entries[i].0);
            i = i + 1;
        }
        let ghost keys = out@.map_values(|p: PeerId| p@);
        assert forall|a: int, b: int| 0 <= a < keys.len() && 0 <= b < keys.len() && a != b implies
            keys[a] != keys[b] by {
            assert(keys[a] == self.entries@[a].0@);
            assert(keys[b] == self.entries@[b].0@);
        }
        assert forall|k: Seq<u8>| #[trigger] keys.to_set().contains(k) == self@.dom().contains(k) by {
            if keys.to_set().contains(k) {
                let j = choose|j: int| 0 <= j < keys.len() && keys[j] == k;
                assert(self.entries@[j].0@ == k);
            }
            if has_key(self.entries@, k) {
                let j = choose|j: int| 0 <= j < self.entries@.len() && (#[trigger] self.entries@[j]).0@ == k;
                assert(keys[j] == k);
            }
        }
        assert(keys.to_set() =~= self@.dom());
        out
    }

    /// How many peers the registry holds.
    pub fn len(&self) -> (r: usize)
        requires
            self.wf(),
        ensures
            r == self@.len(),
    {
        proof {
            let keys = self.entries@.map_values(|e: (PeerId, H)| e.0@);
            assert forall|a: int, b: int| 0 <= a < keys.len() && 0 <= b < keys.len() && a != b
                implies keys[a] != keys[b] by {}
            assert forall|k: Seq<u8>| #[trigger] keys.to_set().contains(k) == self@.dom().contains(k)
                by {
                if keys.to_set().contains(k) {
                    let j = choose|j: int| 0 <= j < keys.len() && keys[j] == k;
                    assert(self.entries@[j].0@ == k);
                }
                if has_key(self.entries@, k) {
                    let j = choose|j: int|
                        0 <= j < self.entries@.len() && (#[trigger] self.entries@[j]).0@ == k;
                    assert(keys[j] == k);
                }
            }
            assert(keys.to_set() =~= self@.dom());
            keys.unique_seq_to_set();
        }
        self.entries.len()
    }
}

/// Whether `k` is a key once `peer` is added to the keys of `entries`.
spec fn before_insert_contains<H>(entries: Seq<(PeerId, H)>, peer: Seq<u8>, k: Seq<u8>) -> bool {
    has_key(entries, k) || k == peer
}

} // verus!
