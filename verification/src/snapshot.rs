//! Local snapshot building: path normalization, the exclusion denylist,
//! and the step that records one eligible file in a manifest. Walking the
//! directory roots and reading file bytes is the caller's concern; every
//! decision about a path is made here.

use vstd::prelude::*;
use crate::manifest::Entry;
use crate::manifest::Manifest;
use crate::strutil::contains_seq;
use crate::strutil::contains_str;

verus! {

/// The path with every backslash separator written as a forward slash, so
/// manifests are portable across host filesystems.
pub open spec fn normalized(s: Seq<char>) -> Seq<char> {
    s.map_values(|c: char| if c == '\\' { '/' } else { c })
}

/// Paths intentionally left untracked: generated assets, fonts and user
/// proposals.
pub open spec fn is_excluded(path: Seq<char>) -> bool {
    contains_seq(path, "system/assets/"@) || contains_seq(path, "system/fonts"@) || contains_seq(
        path,
        "system/proposals"@,
    )
}

/// Rewrites separators as [`normalized`] says.
pub fn normalize_path(raw: &String) -> (r: String)
    ensures
        r@ == normalized(raw@),
{
    let s = raw.as_str();
    let n = s.unicode_len();
    let mut out = String::new();
    let mut i: usize = 0;
    while i < n
        invariant
            n == raw@.len() <= usize::MAX,
            s@ == raw@,
            i <= n,
            out@ == normalized(raw@.subrange(0, i as int)),
        decreases n - i,
    {
        let c = s.get_char(i);
        if c == '\\' {
            proof {
                reveal_strlit("/");
            }
            out.append("/");
        } else {
            let piece = s.substring_char(i, i + 1);
            out.append(piece);
        }
        proof {
            assert(normalized(raw@.subrange(0, i as int + 1)) =~= normalized(
                raw@.subrange(0, i as int),
            ) + seq![if raw@[i as int] == '\\' { '/' } else { raw@[i as int] }]);
        }
        i += 1;
    }
    proof {
        assert(raw@.subrange(0, n as int) =~= raw@);
    }
    out
}

/// Decides [`is_excluded`] for a concrete path.
pub fn excluded_path(path: &String) -> (r: bool)
    ensures
        r == is_excluded(path@),
{
    contains_str(path.as_str(), "system/assets/") || contains_str(path.as_str(), "system/fonts")
        || contains_str(path.as_str(), "system/proposals")
}

/// One step of the snapshot: normalizes the path, drops it when the
/// denylist excludes it or the manifest already tracks it, and otherwise
/// records the given entry under the normalized path.
pub fn snapshot_add(m: &mut Manifest, raw_path: &String, entry: Entry) -> (added: bool)
    requires
        old(m).wf(),
    ensures
        final(m).wf(),
        ({
            let key = normalized(raw_path@);
            if is_excluded(key) || old(m)@.contains_key(key) {
                final(m)@ == old(m)@ && !added
            } else {
                final(m)@ == old(m)@.insert(key, entry@) && added
            }
        }),
{
    let path = normalize_path(raw_path);
    if excluded_path(&path) {
        return false;
    }
    if m.contains_path(&path) {
        return false;
    }
    m.insert(path, entry);
    true
}

} // verus!
