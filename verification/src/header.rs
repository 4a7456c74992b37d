//! The part of a file header that seeking reads: the contig dictionary.

use crate::bytes::same_bytes;
use vstd::prelude::*;

verus! {

/// One declared reference sequence.
#[derive(Clone, Debug, PartialEq, Eq)]
pub struct Contig {
    /// Its name, as the records spell it.
    pub name: Vec<u8>,
    /// Its length, where the header declares one.
    pub length: Option<u64>,
}

/// File-level metadata: the contigs in the order in which the header
/// declares them. A header that declares none has no dictionary.
#[derive(Clone, Debug, PartialEq, Eq)]
pub struct Header {
    pub contigs: Vec<Contig>,
}

impl Header {
    /// The header declares a contig dictionary.
    pub open spec fn has_dictionary(self) -> bool {
        self.contigs@.len() > 0
    }

    /// `i` is the first place at which the dictionary declares `name`.
    pub open spec fn declares_at(self, name: Seq<u8>, i: int) -> bool {
        &&& 0 <= i < self.contigs@.len()
        &&& self.contigs@[i].name@ == name
        &&& forall|j: int| 0 <= j < i ==> (#[trigger] self.contigs@[j]).name@ != name
    }

    /// The dictionary index of `name`: the first place at which the header
    /// declares it, if it does.
    pub open spec fn rank(self, name: Seq<u8>) -> Option<int> {
        if exists|i: int| self.declares_at(name, i) {
            Some(choose|i: int| self.declares_at(name, i))
        } else {
            None
        }
    }

    /// At most one index is the first to declare a name.
    pub proof fn rank_is(self, name: Seq<u8>, i: int)
        requires
            self.declares_at(name, i),
        ensures
            self.rank(name) == Some(i),
    {
        let j = choose|j: int| self.declares_at(name, j);
        assert(self.declares_at(name, j));
        if j < i {
            assert(self.contigs@[j].name@ != name);
        } else if i < j {
            assert(self.contigs@[i].name@ != name);
        }
    }

    /// A name that no entry carries has no index.
    pub proof fn rank_is_none(self, name: Seq<u8>)
        requires
            forall|j: int| 0 <= j < self.contigs@.len() ==> (#[trigger] self.contigs@[j]).name@ != name,
        ensures
            self.rank(name) is None,
    {
        if exists|i: int| self.declares_at(name, i) {
            let i = choose|i: int| self.declares_at(name, i);
            assert(self.contigs@[i].name@ != name);
        }
    }

    /// What `rank` gives lies in the dictionary and carries the name.
    pub proof fn rank_in_range(self, name: Seq<u8>)
        ensures
            self.rank(name) matches Some(i) ==> self.declares_at(name, i),
            !self.has_dictionary() ==> self.rank(name) is None,
    {
    }

    /// A header over the given contigs.
    pub fn new(contigs: Vec<Contig>) -> (header: Header)
        ensures
            header.contigs == contigs,
    {
        Header { contigs }
    }

    /// Looks `name` up in the dictionary.
    pub fn index_of(&self, name: &[u8]) -> (found: Option<usize>)
        ensures
            match found {
                Some(i) => self.rank(name@) == Some(i as int),
                None => self.rank(name@) is None,
            },
    {
        let mut i: usize = 0;
        while i < self.contigs.len()
            invariant
                i <= self.contigs@.len(),
                forall|j: int| 0 <= j < i ==> (#[trigger] self.contigs@[j]).name@ != name@,
            decreases self.contigs@.len() - i,
        {
            if same_bytes(self.contigs[i].name.as_slice(), name) {
                proof {
                    self.rank_is(name@, i as int);
                }
                return Some(i);
            }
            i += 1;
        }
        proof {
            self.rank_is_none(name@);
        }
        None
    }
}

} // verus!
