use vstd::prelude::*;

verus! {

/// The identities among `peers`.
pub open spec fn id_set(peers: Seq<String>) -> Set<Seq<char>> {
    Set::new(|k: Seq<char>| exists|j: int| 0 <= j < peers.len() && #[trigger] peers[j]@ == k)
}

/// The peers currently known through local-network discovery, each once.
/// Observers see only its size.
pub struct PeerSet {
    peers: Vec<String>,
    model: Ghost<Set<Seq<char>>>,
}

impl View for PeerSet {
    type V = Set<Seq<char>>;

    closed spec fn view(&self) -> Set<Seq<char>> {
        self.model@
    }
}

impl PeerSet {
    /// Each peer is listed once, and the list holds exactly the set.
    pub closed spec fn wf(&self) -> bool {
        &&& forall|i: int, j: int|
            0 <= i < j < self.peers@.len() ==> #[trigger] self.peers@[i]@ != #[trigger] self.peers@[j]@
        &&& self.model@ == id_set(self.peers@)
        &&& self.model@.finite()
        &&& self.model@.len() == self.peers@.len()
    }

    /// An empty set.
    pub fn new() -> (r: Self)
        ensures
            r.wf(),
            r@ == Set::<Seq<char>>::empty(),
    {
        let r = PeerSet { peers: Vec::new(), model: Ghost(Set::empty()) };
        assert(r.model@ =~= id_set(r.peers@));
        r
    }

    /// How many peers are known.
    pub fn len(&self) -> (r: usize)
        requires
            self.wf(),
        ensures
            r == self@.len(),
    {
        self.peers.len()
    }

    fn find(&self, peer: &String) -> (r: Option<usize>)
        requires
            self.wf(),
        ensures
            match r {
                Some(i) => i < self.peers@.len() && self.peers@[i as int]@ == peer@,
                None => !self@.contains(peer@),
            },
    {
        let mut i: usize = 0;
        while i < self.peers.len()
            invariant
                self.wf(),
                i <= self.peers@.len(),
                forall|j: int| 0 <= j < i ==> self.peers@[j]@ != peer@,
            decreases self.peers@.len() - i,
        {
            if self.peers[i] == *peer {
                return Some(i);
            }
            i = i + 1;
        }
        None
    }

    /// Whether `peer` is known.
    pub fn contains(&self, peer: &String) -> (r: bool)
        requires
            self.wf(),
        ensures
            r == self@.contains(peer@),
    {
        self.find(peer).is_some()
    }

    /// Adds `peer`; nothing changes if it is known already.
    pub fn insert(&mut self, peer: String)
        requires
            old(self).wf(),
        ensures
            final(self).wf(),
            final(self)@ == old(self)@.insert(peer@),
    {
        if self.find(&peer).is_some() {
            assert(old(self)@.insert(peer@) =~= old(self)@);
            return;
        }
        let ghost key = peer@;
        self.peers.push(peer);
        self.model = Ghost(self.model@.insert(key));
        assert(self.peers@[self.peers@.len() - 1]@ == key);
        assert(self.model@ =~= id_set(self.peers@)) by {
            assert forall|k: Seq<char>| id_set(old(self).peers@).contains(k) implies id_set(
                self.peers@,
            ).contains(k) by {
                let j = choose|j: int|
                    0 <= j < old(self).peers@.len() && #[trigger] old(self).peers@[j]@ == k;
                assert(self.peers@[j]@ == k);
            }
            assert forall|k: Seq<char>| id_set(self.peers@).contains(k) && k != key implies id_set(
                old(self).peers@,
            ).contains(k) by {
                let j = choose|j: int| 0 <= j < self.peers@.len() && #[trigger] self.peers@[j]@ == k;
                assert(old(self).peers@[j]@ == k);
            }
        }
    }

    /// Removes `peer`; nothing changes if it is not known.
    pub fn remove(&mut self, peer: &String)
        requires
            old(self).wf(),
        ensures
            final(self).wf(),
            final(self)@ == old(self)@.remove(peer@),
    {
        match self.find(peer) {
            None => {
                assert(old(self)@.remove(peer@) =~= old(self)@);
            },
            Some(i) => {
                let ghost key = peer@;
                self.peers.remove(i);
                self.model = Ghost(self.model@.remove(key));
                assert forall|a: int, b: int|
                    0 <= a < b < self.peers@.len() implies #[trigger] self.peers@[a]@
                    != #[trigger] self.peers@[b]@ by {
                    let oa = if a < i { a } else { a + 1 };
                    let ob = if b < i { b } else { b + 1 };
                    assert(self.peers@[a] == old(self).peers@[oa]);
                    assert(self.peers@[b] == old(self).peers@[ob]);
                }
                assert(self.model@ =~= id_set(self.peers@)) by {
                    assert forall|k: Seq<char>| id_set(self.peers@).contains(k) implies self.model@.contains(k) by {
                        let j = choose|j: int| 0 <= j < self.peers@.len() && #[trigger] self.peers@[j]@ == k;
                        let oj = if j < i { j } else { j + 1 };
                        assert(old(self).peers@[oj]@ == k);
                    }
                    assert forall|k: Seq<char>| self.model@.contains(k) implies id_set(self.peers@).contains(k) by {
                        let j = choose|j: int|
                            0 <= j < old(self).peers@.len() && #[trigger] old(self).peers@[j]@ == k;
                        if j < i {
                            assert(self.peers@[j]@ == k);
                        } else {
                            assert(self.peers@[j - 1]@ == k);
                        }
                    }
                }
            },
        }
    }

    /// Records peers that discovery reported, and returns how many peers
    /// are known afterwards. A peer reported twice is known once.
    pub fn on_discovered(&mut self, peers: &Vec<String>) -> (r: usize)
        requires
            old(self).wf(),
        ensures
            final(self).wf(),
            final(self)@ == old(self)@.union(id_set(peers@)),
            r == final(self)@.len(),
    {
        let mut i: usize = 0;
        while i < peers.len()
            invariant
                self.wf(),
                i <= peers@.len(),
                self@ == old(self)@.union(id_set(peers@.take(i as int))),
            decreases peers@.len() - i,
        {
            self.insert(peers[i].clone());
            proof {
                assert(peers@.take(i + 1)[i as int] == peers@[i as int]);
                assert(id_set(peers@.take(i + 1)) =~= id_set(peers@.take(i as int)).insert(peers@[i as int]@)) by {
                    assert forall|k: Seq<char>| id_set(peers@.take(i as int)).contains(k) implies id_set(peers@.take(i + 1)).contains(k) by {
                        let j = choose|j: int| 0 <= j < i && #[trigger] peers@.take(i as int)[j]@ == k;
                        assert(peers@.take(i + 1)[j]@ == k);
                    }
                    assert forall|k: Seq<char>| id_set(peers@.take(i + 1)).contains(k) && k != peers@[i as int]@ implies id_set(peers@.take(i as int)).contains(k) by {
                        let j = choose|j: int| 0 <= j < i + 1 && #[trigger] peers@.take(i + 1)[j]@ == k;
                        assert(peers@.take(i as int)[j]@ == k);
                    }
                }
            }
            i = i + 1;
        }
        assert(peers@.take(peers@.len() as int) =~= peers@);
        self.len()
    }

    /// Forgets peers whose discovery entries expired, and returns how many
    /// peers are known afterwards.
    pub fn on_expired(&mut self, peers: &Vec<String>) -> (r: usize)
        requires
            old(self).wf(),
        ensures
            final(self).wf(),
            final(self)@ == old(self)@.difference(id_set(peers@)),
            r == final(self)@.len(),
    {
        let mut i: usize = 0;
        while i < peers.len()
            invariant
                self.wf(),
                i <= peers@.len(),
                self@ == old(self)@.difference(id_set(peers@.take(i as int))),
            decreases peers@.len() - i,
        {
            self.remove(&peers[i]);
            proof {
                assert(peers@.take(i + 1)[i as int] == peers@[i as int]);
                assert(id_set(peers@.take(i + 1)) =~= id_set(peers@.take(i as int)).insert(peers@[i as int]@)) by {
                    assert forall|k: Seq<char>| id_set(peers@.take(i as int)).contains(k) implies id_set(peers@.take(i + 1)).contains(k) by {
                        let j = choose|j: int| 0 <= j < i && #[trigger] peers@.take(i as int)[j]@ == k;
                        assert(peers@.take(i + 1)[j]@ == k);
                    }
                    assert forall|k: Seq<char>| id_set(peers@.take(i + 1)).contains(k) && k != peers@[i as int]@ implies id_set(peers@.take(i as int)).contains(k) by {
                        let j = choose|j: int| 0 <= j < i + 1 && #[trigger] peers@.take(i + 1)[j]@ == k;
                        assert(peers@.take(i as int)[j]@ == k);
                    }
                }
                assert(self@ =~= old(self)@.difference(id_set(peers@.take(i + 1))));
            }
            i = i + 1;
        }
        assert(peers@.take(peers@.len() as int) =~= peers@);
        self.len()
    }
}

} // verus!
