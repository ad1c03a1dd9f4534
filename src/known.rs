//! The names already seen: a cache in front of the log, rebuilt from the
//! log's entries at start, that lets the capture path skip names it has
//! already handed on.
use vstd::prelude::*;
use crate::layout::views;

verus! {

/// Whether two byte strings are equal.
pub fn same_bytes(a: &[u8], b: &[u8]) -> (r: bool)
    ensures
        r == (a@ == b@),
{
    if a.len() != b.len() {
        return false;
    }
    let mut i: usize = 0;
    while i < a.len()
        invariant
            a@.len() == b@.len(),
            i <= a@.len(),
            forall|k: int| 0 <= k < i ==> a@[k] == b@[k],
        decreases a@.len() - i,
    {
        if a[i] != b[i] {
            return false;
        }
        i += 1;
    }
    assert(a@ =~= b@);
    true
}

/// A set of names.
pub struct KnownNames {
    names: Vec<Vec<u8>>,
}

impl KnownNames {
    /// The names held.
    pub closed spec fn view(self) -> Set<Seq<u8>> {
        views(self.names@).to_set()
    }

    /// An empty set.
    pub fn new() -> (r: KnownNames)
        ensures
            r.view() == Set::<Seq<u8>>::empty(),
    {
        let r = KnownNames { names: Vec::new() };
        assert(views(r.names@).to_set() =~= Set::<Seq<u8>>::empty());
        r
    }

    /// Whether `name` is held.
    pub fn contains(&self, name: &[u8]) -> (r: bool)
        ensures
            r == self.view().contains(name@),
    {
        let mut i: usize = 0;
        while i < self.names.len()
            invariant
                i <= self.names@.len(),
                forall|k: int| 0 <= k < i ==> (#[trigger] self.names@[k])@ != name@,
            decreases self.names@.len() - i,
        {
            if same_bytes(self.names[i].as_slice(), name) {
                assert(views(self.names@)[i as int] == name@);
                return true;
            }
            i += 1;
        }
        assert(!views(self.names@).contains(name@)) by {
            if views(self.names@).contains(name@) {
                let k = choose|k: int| 0 <= k < views(self.names@).len() && views(self.names@)[k] == name@;
                assert(self.names@[k]@ == name@);
            }
        }
        false
    }

    /// Adds `name`; says whether it is a name to hand on: one not held before
    /// and not empty.
    pub fn remember(&mut self, name: &[u8]) -> (r: bool)
        ensures
            final(self).view() == old(self).view().insert(name@),
            r == (!old(self).view().contains(name@) && name@.len() > 0),
    {
        if self.contains(name) {
            assert(old(self).view().insert(name@) =~= old(self).view());
            return false;
        }
        let ghost before = self.names@;
        let mut copy: Vec<u8> = Vec::new();
        copy.extend_from_slice(name);
        assert(copy@ =~= name@);
        self.names.push(copy);
        proof {
            assert(views(self.names@) =~= views(before).push(name@));
            views(before).lemma_push_to_set_commute(name@);
        }
        name.len() > 0
    }

    /// The set of the names in `entries`, as the cache is rebuilt from the
    /// log at start.
    pub fn from_entries(entries: &Vec<Vec<u8>>) -> (r: KnownNames)
        ensures
            r.view() == views(entries@).to_set(),
    {
        let mut r = KnownNames::new();
        let mut i: usize = 0;
        while i < entries.len()
            invariant
                i <= entries@.len(),
                r.view() == views(entries@.subrange(0, i as int)).to_set(),
            decreases entries@.len() - i,
        {
            let _ = r.remember(entries[i].as_slice());
            proof {
                let pre = views(entries@.subrange(0, i as int));
                assert(views(entries@.subrange(0, i + 1)) =~= pre.push(entries@[i as int]@));
                pre.lemma_push_to_set_commute(entries@[i as int]@);
            }
            i += 1;
        }
        assert(entries@.subrange(0, entries@.len() as int) =~= entries@);
        r
    }
}

} // verus!
