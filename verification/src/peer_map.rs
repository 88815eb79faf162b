//! A map from peers to what is held for them.

use crate::peer::CoreBluetoothPeerId;
use crate::search;
use vstd::prelude::*;

verus! {

/// What is held for one peer.
pub struct PeerEntry<V> {
    pub peer_id: CoreBluetoothPeerId,
    pub value: V,
}

/// The entry is that of the peer.
pub open spec fn key_is<V>(peer_id: CoreBluetoothPeerId) -> spec_fn(PeerEntry<V>) -> bool {
    |entry: PeerEntry<V>| entry.peer_id == peer_id
}

/// The peers of the entries.
pub open spec fn peers_of<V>(entries: Seq<PeerEntry<V>>) -> Seq<CoreBluetoothPeerId> {
    entries.map_values(|entry: PeerEntry<V>| entry.peer_id)
}

/// The entries as a map.
pub open spec fn entries_map<V>(entries: Seq<PeerEntry<V>>) -> Map<CoreBluetoothPeerId, V> {
    Map::new(
        |peer_id: CoreBluetoothPeerId| search::first_where(entries, key_is(peer_id)) is Some,
        |peer_id: CoreBluetoothPeerId|
            entries[search::first_where(entries, key_is(peer_id))->0].value,
    )
}

/// A map keyed by exact peer identity, small enough to be searched in turn.
pub struct PeerMap<V> {
    entries: Vec<PeerEntry<V>>,
}

impl<V> View for PeerMap<V> {
    type V = Map<CoreBluetoothPeerId, V>;

    closed spec fn view(&self) -> Map<CoreBluetoothPeerId, V> {
        entries_map(self.entries@)
    }
}

impl<V> PeerMap<V> {
    /// Each peer occurs once.
    pub closed spec fn wf(&self) -> bool {
        peers_of(self.entries@).no_duplicates()
    }

    /// The peers in the map, each once, in the order in which they are walked.
    pub closed spec fn peers(&self) -> Seq<CoreBluetoothPeerId> {
        peers_of(self.entries@)
    }

    /// The walk meets exactly the keys of the map, each once.
    pub proof fn lemma_peers(&self)
        requires
            self.wf(),
        ensures
            self.peers().no_duplicates(),
            self.peers().to_set() == self@.dom(),
            self@.dom().finite(),
            self@.dom().len() == self.peers().len(),
            forall|i: int|
                0 <= i < self.peers().len() ==> self@.dom().contains(#[trigger] self.peers()[i]),
    {
        assert(self.peers().to_set() =~= self@.dom()) by {
            assert forall|peer_id: CoreBluetoothPeerId|
                self.peers().contains(peer_id) == self@.dom().contains(peer_id) by {
                let p = key_is::<V>(peer_id);
                search::lemma_first_where(self.entries@, p);
                if self.peers().contains(peer_id) {
                    let i = choose|i: int|
                        0 <= i < self.peers().len() && self.peers()[i] == peer_id;
                    assert(p(self.entries@[i]));
                }
                if self@.dom().contains(peer_id) {
                    let i = search::first_where(self.entries@, p)->0;
                    assert(p(self.entries@[i]));
                    assert(self.peers()[i] == peer_id);
                }
            }
        }
        self.peers().unique_seq_to_set();
        assert forall|i: int| 0 <= i < self.peers().len() implies self@.dom().contains(
            #[trigger] self.peers()[i],
        ) by {
            assert(self.peers().contains(self.peers()[i]));
        }
    }

    proof fn lemma_at(&self, i: int)
        requires
            self.wf(),
            0 <= i < self.entries@.len(),
        ensures
            search::first_where(self.entries@, key_is(self.entries@[i].peer_id)) == Some(i),
            self@.dom().contains(self.entries@[i].peer_id),
            self@[self.entries@[i].peer_id] == self.entries@[i].value,
    {
        let peer_id = self.entries@[i].peer_id;
        let p = key_is::<V>(peer_id);
        assert forall|j: int| 0 <= j < i implies !p(#[trigger] self.entries@[j]) by {
            assert(peers_of(self.entries@)[j] != peers_of(self.entries@)[i]);
        }
        search::lemma_first_where_is(self.entries@, p, i);
    }

    /// An empty map.
    pub fn new() -> (r: Self)
        ensures
            r.wf(),
            r@ == Map::<CoreBluetoothPeerId, V>::empty(),
    {
        let r = PeerMap { entries: Vec::new() };
        proof {
            assert forall|peer_id: CoreBluetoothPeerId| !r@.dom().contains(peer_id) by {
                search::lemma_first_where(r.entries@, key_is::<V>(peer_id));
            }
            assert(r@ =~= Map::<CoreBluetoothPeerId, V>::empty());
        }
        r
    }

    /// The number of peers in the map.
    pub fn len(&self) -> (r: usize)
        requires
            self.wf(),
        ensures
            r == self@.dom().len(),
            r == self.peers().len(),
            self@.dom().finite(),
    {
        proof {
            self.lemma_peers();
        }
        self.entries.len()
    }

    /// The map holds nothing.
    pub fn is_empty(&self) -> (r: bool)
        requires
            self.wf(),
        ensures
            r == (self@ == Map::<CoreBluetoothPeerId, V>::empty()),
    {
        proof {
            self.lemma_peers();
            if self.entries@.len() == 0 {
                assert(self@ =~= Map::<CoreBluetoothPeerId, V>::empty());
            }
        }
        self.entries.len() == 0
    }

    fn position(&self, peer_id: CoreBluetoothPeerId) -> (r: Option<usize>)
        ensures
            match r {
                Some(i) => i < self.entries@.len() && self.entries@[i as int].peer_id == peer_id
                    && search::first_where(self.entries@, key_is(peer_id)) == Some(i as int),
                None => !self@.dom().contains(peer_id) && search::first_where(
                    self.entries@,
                    key_is(peer_id),
                ) is None,
            },
    {
        let ghost p = key_is::<V>(peer_id);
        let mut i: usize = 0;
        while i < self.entries.len()
            invariant
                0 <= i <= self.entries@.len(),
                p == key_is::<V>(peer_id),
                forall|j: int| 0 <= j < i ==> !p(#[trigger] self.entries@[j]),
            decreases self.entries@.len() - i,
        {
            if self.entries[i].peer_id == peer_id {
                proof {
                    search::lemma_first_where_is(self.entries@, p, i as int);
                }
                return Some(i);
            }
            i += 1;
        }
        proof {
            search::lemma_first_where(self.entries@, p);
        }
        None
    }

    /// The peer is in the map.
    pub fn contains_key(&self, peer_id: CoreBluetoothPeerId) -> (r: bool)
        ensures
            r == self@.dom().contains(peer_id),
    {
        self.position(peer_id).is_some()
    }

    /// What is held for the peer.
    pub fn get(&self, peer_id: CoreBluetoothPeerId) -> (r: Option<&V>)
        ensures
            match r {
                Some(value) => self@.dom().contains(peer_id) && *value == self@[peer_id],
                None => !self@.dom().contains(peer_id),
            },
    {
        match self.position(peer_id) {
            Some(i) => Some(&self.entries[i].value),
            None => None,
        }
    }

    /// The peer at a place of the walk, and what is held for it.
    pub fn at(&self, i: usize) -> (r: (CoreBluetoothPeerId, &V))
        requires
            self.wf(),
            i < self.peers().len(),
        ensures
            r.0 == self.peers()[i as int],
            self@.dom().contains(r.0),
            *r.1 == self@[r.0],
    {
        proof {
            self.lemma_at(i as int);
        }
        (self.entries[i].peer_id, &self.entries[i].value)
    }

    /// The peers in the map, in the order of the walk.
    pub fn keys(&self) -> (r: Vec<CoreBluetoothPeerId>)
        requires
            self.wf(),
        ensures
            r@ == self.peers(),
            r@.no_duplicates(),
            r@.to_set() == self@.dom(),
    {
        let mut keys: Vec<CoreBluetoothPeerId> = Vec::new();
        let mut i: usize = 0;
        while i < self.entries.len()
            invariant
                0 <= i <= self.entries@.len(),
                keys@ == self.peers().take(i as int),
            decreases self.entries@.len() - i,
        {
            keys.push(self.entries[i].peer_id);
            i += 1;
            assert(keys@ =~= self.peers().take(i as int));
        }
        proof {
            self.lemma_peers();
            assert(self.peers().take(i as int) =~= self.peers());
        }
        keys
    }

    /// Takes the peer out of the map.
    pub fn remove(&mut self, peer_id: CoreBluetoothPeerId) -> (r: Option<V>)
        requires
            old(self).wf(),
        ensures
            final(self).wf(),
            final(self)@ == old(self)@.remove(peer_id),
            match r {
                Some(value) => old(self)@.dom().contains(peer_id) && value == old(self)@[peer_id],
                None => !old(self)@.dom().contains(peer_id),
            },
    {
        match self.position(peer_id) {
            Some(i) => {
                let entry = self.entries.remove(i);
                proof {
                    lemma_removed(old(self).entries@, i as int);
                }
                Some(entry.value)
            },
            None => {
                assert(self@ =~= old(self)@.remove(peer_id));
                None
            },
        }
    }

    /// Holds the value for the peer, in place of what was held for it.
    pub fn insert(&mut self, peer_id: CoreBluetoothPeerId, value: V) -> (r: Option<V>)
        requires
            old(self).wf(),
        ensures
            final(self).wf(),
            final(self)@ == old(self)@.insert(peer_id, value),
            match r {
                Some(before) => old(self)@.dom().contains(peer_id) && before == old(
                    self,
                )@[peer_id],
                None => !old(self)@.dom().contains(peer_id),
            },
    {
        let before = self.remove(peer_id);
        let ghost mid = self.entries@;
        self.entries.push(PeerEntry { peer_id, value });
        proof {
            lemma_pushed(mid, PeerEntry { peer_id, value });
            assert(self@ =~= old(self)@.insert(peer_id, value));
        }
        before
    }

    /// Empties the map.
    pub fn clear(&mut self)
        ensures
            final(self).wf(),
            final(self)@ == Map::<CoreBluetoothPeerId, V>::empty(),
    {
        let fresh = PeerMap::new();
        *self = fresh;
    }
}

proof fn lemma_removed<V>(entries: Seq<PeerEntry<V>>, i: int)
    requires
        peers_of(entries).no_duplicates(),
        0 <= i < entries.len(),
    ensures
        peers_of(entries.remove(i)).no_duplicates(),
        entries_map(entries.remove(i)) == entries_map(entries).remove(entries[i].peer_id),
{
    let rest = entries.remove(i);
    let gone = entries[i].peer_id;
    assert(peers_of(rest) =~= peers_of(entries).remove(i));
    assert forall|a: int, b: int| 0 <= a < rest.len() && 0 <= b < rest.len() && a != b implies
        peers_of(rest)[a] != peers_of(rest)[b] by {
        let a0 = if a < i {
            a
        } else {
            a + 1
        };
        let b0 = if b < i {
            b
        } else {
            b + 1
        };
        assert(peers_of(entries)[a0] != peers_of(entries)[b0]);
    }
    assert forall|peer_id: CoreBluetoothPeerId|
        #![trigger entries_map(rest).dom().contains(peer_id)]
        #![trigger entries_map(entries).dom().contains(peer_id)]
        #![trigger entries_map(rest)[peer_id]]
        entries_map(rest).dom().contains(peer_id) == (entries_map(entries).dom().contains(peer_id)
            && peer_id != gone) && (entries_map(rest).dom().contains(peer_id) ==> entries_map(
            rest,
        )[peer_id] == entries_map(entries)[peer_id]) by {
        let p = key_is::<V>(peer_id);
        search::lemma_first_where(rest, p);
        search::lemma_first_where(entries, p);
        match search::first_where(rest, p) {
            Some(k) => {
                assert(p(rest[k]));
                let k0 = if k < i {
                    k
                } else {
                    k + 1
                };
                assert(rest[k] == entries[k0]);
                assert(p(entries[k0]));
                let f = search::first_where(entries, p)->0;
                assert(p(entries[f]));
                assert(peers_of(entries)[f] == peers_of(entries)[k0]);
                assert(f == k0);
                assert(peers_of(entries)[i] != peers_of(entries)[k0]);
            },
            None => {
                match search::first_where(entries, p) {
                    Some(f) => {
                        assert(p(entries[f]));
                        if f != i {
                            let f0 = if f < i {
                                f
                            } else {
                                f - 1
                            };
                            assert(rest[f0] == entries[f]);
                            assert(p(rest[f0]));
                        }
                    },
                    None => {},
                }
            },
        }
    }
    assert(entries_map(rest).dom() =~= entries_map(entries).remove(gone).dom());
    assert(entries_map(rest) =~= entries_map(entries).remove(gone));
}

proof fn lemma_pushed<V>(entries: Seq<PeerEntry<V>>, entry: PeerEntry<V>)
    requires
        peers_of(entries).no_duplicates(),
        !entries_map(entries).dom().contains(entry.peer_id),
    ensures
        peers_of(entries.push(entry)).no_duplicates(),
        entries_map(entries.push(entry)) == entries_map(entries).insert(
            entry.peer_id,
            entry.value,
        ),
{
    let next = entries.push(entry);
    let q = key_is::<V>(entry.peer_id);
    search::lemma_first_where(entries, q);
    assert forall|j: int| 0 <= j < entries.len() implies (#[trigger] entries[j]).peer_id
        != entry.peer_id by {
        assert(!q(entries[j]));
    }
    assert(peers_of(next) =~= peers_of(entries).push(entry.peer_id));
    assert forall|peer_id: CoreBluetoothPeerId|
        #![trigger entries_map(next).dom().contains(peer_id)]
        #![trigger entries_map(entries).dom().contains(peer_id)]
        #![trigger entries_map(next)[peer_id]]
        entries_map(next).dom().contains(peer_id) == (entries_map(entries).dom().contains(peer_id)
            || peer_id == entry.peer_id) && (entries_map(next).dom().contains(peer_id)
            ==> entries_map(next)[peer_id] == entries_map(entries).insert(
            entry.peer_id,
            entry.value,
        )[peer_id]) by {
        let p = key_is::<V>(peer_id);
        search::lemma_first_where(entries, p);
        match search::first_where(entries, p) {
            Some(f) => {
                assert(p(next[f]));
                assert forall|j: int| 0 <= j < f implies !p(#[trigger] next[j]) by {
                    assert(!p(entries[j]));
                }
                search::lemma_first_where_is(next, p, f);
            },
            None => {
                assert forall|j: int| 0 <= j < entries.len() implies !p(#[trigger] next[j]) by {
                    assert(!p(entries[j]));
                }
                if peer_id == entry.peer_id {
                    search::lemma_first_where_is(next, p, entries.len() as int);
                } else {
                    search::lemma_first_where(next, p);
                    match search::first_where(next, p) {
                        Some(f) => {
                            assert(p(next[f]));
                        },
                        None => {},
                    }
                }
            },
        }
    }
    assert(entries_map(next).dom() =~= entries_map(entries).insert(
        entry.peer_id,
        entry.value,
    ).dom());
    assert(entries_map(next) =~= entries_map(entries).insert(entry.peer_id, entry.value));
}

} // verus!
