//! Which changes on disk call for a new compilation.

use vstd::prelude::*;

verus! {

/// One change reported by the file watcher, reduced to what matters here.
#[derive(Clone, Copy, Debug, PartialEq, Eq, Structural)]
pub struct Change {
    /// The file was only read or opened, not changed.
    pub access_only: bool,
    /// One of the paths that the change names is the source.
    pub names_source: bool,
}

impl Change {
    /// Whether the change calls for a new compilation: it names the source
    /// and is more than an access.
    pub open spec fn is_relevant(self) -> bool {
        !self.access_only && self.names_source
    }
}

/// Whether a batch of changes calls for a new compilation: one of them is
/// relevant. However many are, the batch calls for one compilation only.
pub fn should_recompile(changes: &[Change]) -> (yes: bool)
    ensures
        yes == exists|i: int| 0 <= i < changes.len() && (#[trigger] changes[i]).is_relevant(),
{
    let mut i: usize = 0;
    while i < changes.len()
        invariant
            i <= changes.len(),
            forall|j: int| 0 <= j < i ==> !(#[trigger] changes[j]).is_relevant(),
        decreases changes.len() - i,
    {
        if !changes[i].access_only && changes[i].names_source {
            return true;
        }
        i += 1;
    }
    false
}

} // verus!
