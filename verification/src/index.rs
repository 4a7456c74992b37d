//! Where the index of a variant file is looked for, and which one is used.

use vstd::prelude::*;
use vstd::string::StringExecFns;

verus! {

/// The two kinds of side-car index.
#[derive(Clone, Copy, Debug, PartialEq, Eq, Structural)]
pub enum IndexKind {
    /// Coordinate-sorted index.
    Csi,
    /// Tabix index.
    Tbi,
}

/// What was found at the path of an index.
#[derive(Clone, Copy, Debug, PartialEq, Eq, Structural)]
pub enum Probe {
    /// No file.
    Missing,
    /// A file that does not parse as an index.
    Unparseable,
    /// An index.
    Usable,
}

impl IndexKind {
    /// What the kind appends to the path of the variant file.
    pub open spec fn suffix(self) -> Seq<char> {
        match self {
            IndexKind::Csi => ".csi"@,
            IndexKind::Tbi => ".tbi"@,
        }
    }
}

/// The path at which the index of the given kind lies, for the variant file
/// at `path`.
pub fn index_path(path: &str, kind: IndexKind) -> (index: String)
    ensures
        index@ == path@ + kind.suffix(),
{
    let stem = String::from_str(path);
    match kind {
        IndexKind::Csi => stem.concat(".csi"),
        IndexKind::Tbi => stem.concat(".tbi"),
    }
}

/// The index to use, given what was found at the path of each kind: the
/// coordinate-sorted one if it is usable, else the tabix one if that is. A
/// file that is missing and one that does not parse count alike, and neither
/// is an error: without a usable index the variant file is read without one.
pub fn find_index(csi: Probe, tbi: Probe) -> (index: Option<IndexKind>)
    ensures
        index == if csi is Usable {
            Some(IndexKind::Csi)
        } else if tbi is Usable {
            Some(IndexKind::Tbi)
        } else {
            None
        },
{
    match (csi, tbi) {
        (Probe::Usable, _) => Some(IndexKind::Csi),
        (_, Probe::Usable) => Some(IndexKind::Tbi),
        _ => None,
    }
}

} // verus!
