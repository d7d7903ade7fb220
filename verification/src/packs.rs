//! Data pack selection: the persisted choice of which optional subsets of
//! the tree this installation materializes. A pack is identified by the
//! path prefix it owns; a selection is the list of enabled prefixes. The
//! selection is loaded once per run and treated as immutable input.

use vstd::prelude::*;
use crate::strutil::is_prefix_of;
use crate::strutil::starts_with_str;

verus! {

/// The set of enabled packs, each named by the path prefix it owns.
pub struct DataPacks {
    pub enabled: Vec<String>,
}

impl DataPacks {
    /// A path belongs to an enabled pack: some enabled prefix starts it.
    pub open spec fn allows(&self, path: Seq<char>) -> bool {
        exists|i: int|
            0 <= i < self.enabled@.len() && #[trigger] is_prefix_of(self.enabled@[i]@, path)
    }

    /// A selection from an explicit list of enabled prefixes.
    pub fn new(enabled: Vec<String>) -> (r: DataPacks)
        ensures
            r.enabled@ == enabled@,
    {
        DataPacks { enabled }
    }

    /// The selection a fresh installation starts with: the base system tree
    /// is enabled, optional input packs are opt-in.
    pub fn default_selection() -> (r: DataPacks)
        ensures
            r.enabled@.len() == 1,
            r.enabled@[0]@ == "data/system/"@,
    {
        let mut enabled: Vec<String> = Vec::new();
        enabled.push("data/system/".to_owned());
        DataPacks { enabled }
    }

    /// Decides [`DataPacks::allows`] for a concrete path.
    pub fn allows_path(&self, path: &String) -> (r: bool)
        ensures
            r == self.allows(path@),
    {
        let n = self.enabled.len();
        let mut i: usize = 0;
        while i < n
            invariant
                n == self.enabled@.len(),
                i <= n,
                forall|k: int| 0 <= k < i ==> !#[trigger] is_prefix_of(self.enabled@[k]@, path@),
            decreases n - i,
        {
            if starts_with_str(path.as_str(), self.enabled[i].as_str()) {
                assert(is_prefix_of(self.enabled@[i as int]@, path@));
                return true;
            }
            i += 1;
        }
        false
    }
}

} // verus!
