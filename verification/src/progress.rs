//! The progress record: the set of item ids already confirmed listed (or
//! found already listed), kept in first-recorded order so that a durable
//! snapshot can be written and re-read deterministically.

use vstd::prelude::*;

verus! {

/// Ids already processed, in the order they were first recorded.
///
/// Invariant: an id appears at most once; once recorded it is never removed.
pub struct ProgressRecord {
    ids: Vec<u64>,
}

impl View for ProgressRecord {
    type V = Seq<u64>;

    closed spec fn view(&self) -> Seq<u64> {
        self.ids@
    }
}

impl ProgressRecord {
    /// No id appears twice.
    pub open spec fn wf(&self) -> bool {
        self@.no_duplicates()
    }

    /// An empty record: the starting state when no prior snapshot is reused.
    pub fn new() -> (r: Self)
        ensures
            r@ == Seq::<u64>::empty(),
            r.wf(),
    {
        ProgressRecord { ids: Vec::new() }
    }

    /// How many ids have been recorded.
    pub fn len(&self) -> (n: usize)
        ensures
            n == self@.len(),
    {
        self.ids.len()
    }

    /// Membership test: has `id` already been processed?
    pub fn contains(&self, id: u64) -> (r: bool)
        ensures
            r == self@.contains(id),
    {
        let n = self.ids.len();
        for i in 0..n
            invariant
                n == self.ids@.len(),
                forall|j: int| 0 <= j < i ==> self.ids@[j] != id,
        {
            if self.ids[i] == id {
                return true;
            }
        }
        false
    }

    /// Idempotent insert: a no-op when `id` is already present. The old
    /// record is always a prefix of the new one, so recorded ids stay
    /// recorded and the record only grows.
    pub fn record(&mut self, id: u64)
        ensures
            final(self)@ == if old(self)@.contains(id) {
                old(self)@
            } else {
                old(self)@.push(id)
            },
            old(self)@.is_prefix_of(final(self)@),
            final(self)@.contains(id),
            old(self).wf() ==> final(self).wf(),
    {
        let had = self.contains(id);
        if !had {
            self.ids.push(id);
            assert(self@ =~= old(self)@.push(id));
            assert(self@[old(self)@.len() as int] == id);
        }
        assert(self@.take(old(self)@.len() as int) =~= old(self)@);
    }

    /// The recorded ids, oldest first, as a fresh vector.
    pub fn to_vec(&self) -> (v: Vec<u64>)
        ensures
            v@ == self@,
    {
        let n = self.ids.len();
        let mut v: Vec<u64> = Vec::new();
        for i in 0..n
            invariant
                n == self.ids@.len(),
                v@ == self.ids@.take(i as int),
        {
            v.push(self.ids[i]);
            assert(v@ =~= self.ids@.take(i + 1));
        }
        assert(v@ =~= self.ids@);
        v
    }
}

} // verus!
