use vstd::prelude::*;

verus! {

/// Per-sender sequence watermarks: for each sender identity, the highest
/// sequence number accepted from it so far. Entries are created on a
/// sender's first accepted message and never removed.
pub struct SeqWatermarks {
    entries: Vec<(String, u64)>,
    model: Ghost<Map<Seq<char>, u64>>,
}

impl View for SeqWatermarks {
    type V = Map<Seq<char>, u64>;

    closed spec fn view(&self) -> Map<Seq<char>, u64> {
        self.model@
    }
}

impl SeqWatermarks {
    /// Each sender has exactly one entry, and the entries are the map.
    pub closed spec fn wf(&self) -> bool {
        &&& forall|i: int, j: int|
            0 <= i < j < self.entries@.len() ==> #[trigger] self.entries@[i].0@
                != #[trigger] self.entries@[j].0@
        &&& forall|i: int|
            0 <= i < self.entries@.len() ==> #[trigger] self.model@.contains_key(
                self.entries@[i].0@,
            ) && self.model@[self.entries@[i].0@] == self.entries@[i].1
        &&& forall|k: Seq<char>|
            #[trigger] self.model@.contains_key(k) ==> exists|i: int|
                0 <= i < self.entries@.len() && #[trigger] self.entries@[i].0@ == k
    }

    /// A table with no sender in it.
    pub fn new() -> (r: Self)
        ensures
            r.wf(),
            r@ == Map::<Seq<char>, u64>::empty(),
    {
        SeqWatermarks { entries: Vec::new(), model: Ghost(Map::empty()) }
    }

    /// Index of `sender`'s entry, if it has one.
    fn find(&self, sender: &String) -> (r: Option<usize>)
        requires
            self.wf(),
        ensures
            match r {
                Some(i) => i < self.entries@.len() && self.entries@[i as int].0@ == sender@,
                None => !self@.contains_key(sender@),
            },
    {
        let mut i: usize = 0;
        while i < self.entries.len()
            invariant
                self.wf(),
                i <= self.entries@.len(),
                forall|j: int| 0 <= j < i ==> self.entries@[j].0@ != sender@,
            decreases self.entries@.len() - i,
        {
            if self.entries[i].0 == *sender {
                return Some(i);
            }
            i = i + 1;
        }
        None
    }

    /// The watermark of `sender`, or `None` before its first accepted message.
    pub fn get(&self, sender: &String) -> (r: Option<u64>)
        requires
            self.wf(),
        ensures
            r == (if self@.contains_key(sender@) {
                Some(self@[sender@])
            } else {
                None::<u64>
            }),
    {
        match self.find(sender) {
            Some(i) => Some(self.entries[i].1),
            None => None,
        }
    }

    /// Sets the watermark of `sender` to `seq`.
    pub fn insert(&mut self, sender: String, seq: u64)
        requires
            old(self).wf(),
        ensures
            final(self).wf(),
            final(self)@ == old(self)@.insert(sender@, seq),
    {
        let ghost key = sender@;
        let ghost mut at: int = self.entries@.len() as int;
        match self.find(&sender) {
            Some(i) => {
                proof {
                    at = i as int;
                }
                self.entries[i] = (sender, seq);
            },
            None => {
                self.entries.push((sender, seq));
            },
        }
        assert(self.entries@[at].0@ == key);
        self.model = Ghost(self.model@.insert(key, seq));
        assert forall|k: Seq<char>| #[trigger] self.model@.contains_key(k) implies exists|i: int|
            0 <= i < self.entries@.len() && #[trigger] self.entries@[i].0@ == k by {
            if k != key {
                let i = choose|i: int| 0 <= i < old(self).entries@.len() && #[trigger] old(self).entries@[i].0@ == k;
                assert(self.entries@[i].0@ == k);
            } else {
                assert(self.entries@[at].0@ == k);
            }
        }
    }
}

} // verus!
