use crate::model::BootSpec;
use vstd::prelude::*;

verus! {

/// What became of reading and parsing one descriptor file.
#[derive(Clone, Debug, PartialEq, Eq)]
pub enum DescriptorLoad {
    Loaded(BootSpec),
    ReadFailed(String),
    ParseFailed(String),
}

#[derive(Clone, Debug, PartialEq, Eq)]
pub struct StoredDescriptor {
    pub path: String,
    pub load: DescriptorLoad,
}

/// The descriptor files loaded so far, by path. A later entry for a path
/// replaces an earlier one.
#[derive(Clone, Debug, PartialEq, Eq)]
pub struct DescriptorStore {
    pub entries: Vec<StoredDescriptor>,
}

/// The load outcome stored for path `p`: that of its last entry.
pub open spec fn lookup(s: Seq<StoredDescriptor>, p: Seq<char>) -> Option<DescriptorLoad>
    decreases s.len(),
{
    if s.len() == 0 {
        None
    } else if s.last().path@ == p {
        Some(s.last().load)
    } else {
        lookup(s.drop_last(), p)
    }
}

/// Two different paths found in a store are two entries at least.
pub proof fn lemma_lookup_two(s: Seq<StoredDescriptor>, p: Seq<char>, q: Seq<char>)
    requires
        lookup(s, p) is Some,
        lookup(s, q) is Some,
        p != q,
    ensures
        s.len() >= 2,
    decreases s.len(),
{
    if s.last().path@ != p && s.last().path@ != q {
        lemma_lookup_two(s.drop_last(), p, q);
    } else if s.last().path@ == p {
        assert(lookup(s.drop_last(), q) is Some);
    } else {
        assert(lookup(s.drop_last(), p) is Some);
    }
}

impl DescriptorStore {
    pub open spec fn get(&self, p: Seq<char>) -> Option<DescriptorLoad> {
        lookup(self.entries@, p)
    }

    pub fn new() -> (r: DescriptorStore)
        ensures
            r.entries@.len() == 0,
            forall|p: Seq<char>| r.get(p) is None,
    {
        DescriptorStore { entries: Vec::new() }
    }

    /// Records the outcome of loading the descriptor at `path`.
    pub fn record(&mut self, path: String, load: DescriptorLoad)
        ensures
            final(self).entries@.len() == old(self).entries@.len() + 1,
            forall|p: Seq<char>|
                #[trigger] final(self).get(p) == if p == path@ {
                    Some(load)
                } else {
                    old(self).get(p)
                },
    {
        let ghost before = self.entries@;
        self.entries.push(StoredDescriptor { path, load });
        assert(self.entries@.drop_last() =~= before);
    }

    /// The index of the entry that holds the outcome for `path`.
    pub fn position(&self, path: &String) -> (r: Option<usize>)
        ensures
            match r {
                Some(i) => i < self.entries@.len() && self.get(path@) == Some(
                    self.entries@[i as int].load,
                ),
                None => self.get(path@) is None,
            },
    {
        let mut i: usize = self.entries.len();
        assert(self.entries@.subrange(0, i as int) =~= self.entries@);
        while i > 0
            invariant
                i <= self.entries@.len(),
                lookup(self.entries@, path@) == lookup(self.entries@.subrange(0, i as int), path@),
            decreases i,
        {
            let ghost pre = self.entries@.subrange(0, i as int);
            assert(pre.drop_last() =~= self.entries@.subrange(0, i - 1));
            if self.entries[i - 1].path == *path {
                return Some(i - 1);
            }
            i = i - 1;
        }
        None
    }
}

} // verus!
