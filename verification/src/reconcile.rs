//! The reconciler: from a *current* and a *target* manifest, the exact
//! action sets needed to converge. Pure — no I/O. A path goes to
//! `to_delete` when only the current manifest holds it, to `to_sync` when
//! the target holds it and the current checksum is absent or different.
//! Checksum is the single source of truth: recorded sizes never decide.

use vstd::prelude::*;
use crate::manifest::EntryModel;
use crate::manifest::Manifest;
use crate::manifest::key_among;
use crate::manifest::lemma_assoc_map_dom;
use crate::manifest::lemma_assoc_map_at;

verus! {

/// The paths the target no longer tracks: held now, absent from the target.
pub open spec fn delete_set(
    cur: Map<Seq<char>, EntryModel>,
    tgt: Map<Seq<char>, EntryModel>,
) -> Set<Seq<char>> {
    cur.dom().difference(tgt.dom())
}

/// The paths to fetch or store: tracked by the target, and either absent
/// here or carrying a different checksum. Sizes play no part.
pub open spec fn sync_set(
    cur: Map<Seq<char>, EntryModel>,
    tgt: Map<Seq<char>, EntryModel>,
) -> Set<Seq<char>> {
    tgt.dom().filter(|p: Seq<char>| !cur.contains_key(p) || cur[p].checksum != tgt[p].checksum)
}

/// The character-sequence views of a sequence of owned paths.
pub open spec fn path_views(s: Seq<String>) -> Seq<Seq<char>> {
    s.map_values(|x: String| x@)
}

/// The two action sets of one reconciliation, delete phase first.
pub struct SyncActions {
    pub to_delete: Vec<String>,
    pub to_sync: Vec<String>,
}

impl SyncActions {
    /// Each set lists every path once.
    pub open spec fn wf(&self) -> bool {
        path_views(self.to_delete@).no_duplicates() && path_views(self.to_sync@).no_duplicates()
    }
}

proof fn lemma_push_contains<A>(s: Seq<A>, x: A, y: A)
    ensures
        s.push(x).contains(y) <==> s.contains(y) || x == y,
{
    if s.contains(y) {
        let i = choose|i: int| 0 <= i < s.len() && s[i] == y;
        assert(s.push(x)[i] == y);
    }
    if x == y {
        assert(s.push(x)[s.len() as int] == y);
    }
    if s.push(x).contains(y) {
        let i = choose|i: int| 0 <= i < s.push(x).len() && s.push(x)[i] == y;
        if i < s.len() {
            assert(s[i] == y);
        }
    }
}

/// For all manifests: `to_delete` holds exactly the paths of `current` not
/// in `target`; `to_sync` exactly the paths of `target` absent from
/// `current` or with a differing checksum; a path with equal checksums on
/// both sides appears in neither set.
pub fn reconcile(current: &Manifest, target: &Manifest) -> (r: SyncActions)
    requires
        current.wf(),
        target.wf(),
    ensures
        r.wf(),
        forall|p: Seq<char>|
            #[trigger] path_views(r.to_delete@).contains(p) <==> delete_set(
                current@,
                target@,
            ).contains(p),
        forall|p: Seq<char>|
            #[trigger] path_views(r.to_sync@).contains(p) <==> sync_set(
                current@,
                target@,
            ).contains(p),
{
    proof {
        lemma_assoc_map_dom(current.kv());
        lemma_assoc_map_dom(target.kv());
    }
    let mut to_delete: Vec<String> = Vec::new();
    let nc = current.len();
    let mut i: usize = 0;
    while i < nc
        invariant
            current.wf(),
            target.wf(),
            nc == current.kv().len(),
            i <= nc,
            path_views(to_delete@).no_duplicates(),
            forall|p: Seq<char>|
                #[trigger] path_views(to_delete@).contains(p) <==> key_among(
                    current.kv(),
                    i as int,
                    p,
                ) && !target@.contains_key(p),
        decreases nc - i,
    {
        let ghost prev = to_delete@;
        let ghost key = current.kv()[i as int].0;
        let path = current.path_at(i);
        if !target.contains_path(path) {
            proof {
                lemma_push_contains(path_views(prev), key, key);
                if path_views(prev).contains(key) {
                    let k = choose|k: int| 0 <= k < i && (current.kv()[k]).0 == key;
                    assert((current.kv()[k]).0 == (current.kv()[i as int]).0);
                    assert(false);
                }
            }
            to_delete.push(path.clone());
            proof {
                assert(path_views(to_delete@) =~= path_views(prev).push(key));
                assert forall|p: Seq<char>| #[trigger] path_views(to_delete@).contains(p) implies
                    key_among(current.kv(), i as int + 1, p) && !target@.contains_key(p) by {
                    lemma_push_contains(path_views(prev), key, p);
                    if p == key {
                        assert((current.kv()[i as int]).0 == p);
                    } else {
                        let k = choose|k: int| 0 <= k < i && (current.kv()[k]).0 == p;
                        assert(0 <= k < i as int + 1 && (current.kv()[k]).0 == p);
                    }
                }
                assert forall|p: Seq<char>| key_among(current.kv(), i as int + 1, p)
                    && !target@.contains_key(p) implies #[trigger] path_views(
                    to_delete@,
                ).contains(p) by {
                    lemma_push_contains(path_views(prev), key, p);
                    if p != key {
                        let k = choose|k: int| 0 <= k < i as int + 1 && (current.kv()[k]).0 == p;
                        assert(0 <= k < i && (current.kv()[k]).0 == p);
                    }
                }
            }
        } else {
            proof {
                assert forall|p: Seq<char>| #[trigger] path_views(to_delete@).contains(p) implies
                    key_among(current.kv(), i as int + 1, p) && !target@.contains_key(p) by {
                    let k = choose|k: int| 0 <= k < i && (current.kv()[k]).0 == p;
                    assert(0 <= k < i as int + 1 && (current.kv()[k]).0 == p);
                }
                assert forall|p: Seq<char>| key_among(current.kv(), i as int + 1, p)
                    && !target@.contains_key(p) implies #[trigger] path_views(
                    to_delete@,
                ).contains(p) by {
                    let k = choose|k: int| 0 <= k < i as int + 1 && (current.kv()[k]).0 == p;
                    if k == i {
                        assert((current.kv()[i as int]).0 == p);
                        assert(target@.contains_key(p));
                    } else {
                        assert(key_among(current.kv(), i as int, p));
                    }
                }
            }
        }
        i += 1;
    }

    let mut to_sync: Vec<String> = Vec::new();
    let nt = target.len();
    let mut j: usize = 0;
    while j < nt
        invariant
            current.wf(),
            target.wf(),
            nt == target.kv().len(),
            j <= nt,
            path_views(to_sync@).no_duplicates(),
            forall|p: Seq<char>|
                #[trigger] path_views(to_sync@).contains(p) <==> key_among(target.kv(), j as int, p)
                    && sync_set(current@, target@).contains(p),
        decreases nt - j,
    {
        let ghost prev = to_sync@;
        let ghost key = target.kv()[j as int].0;
        let path = target.path_at(j);
        let entry = target.entry_at(j);
        let changed = match current.get(path) {
            Option::None => true,
            Option::Some(have) => have.checksum != entry.checksum,
        };
        proof {
            lemma_assoc_map_at(target.kv(), j as int);
            assert(target@.contains_key(key) && target@[key] == target.kv()[j as int].1);
        }
        if changed {
            proof {
                if path_views(prev).contains(key) {
                    let k = choose|k: int| 0 <= k < j && (target.kv()[k]).0 == key;
                    assert((target.kv()[k]).0 == (target.kv()[j as int]).0);
                    assert(false);
                }
            }
            to_sync.push(path.clone());
            proof {
                assert(path_views(to_sync@) =~= path_views(prev).push(key));
                assert forall|p: Seq<char>| #[trigger] path_views(to_sync@).contains(p) implies
                    key_among(target.kv(), j as int + 1, p) && sync_set(
                    current@,
                    target@,
                ).contains(p) by {
                    lemma_push_contains(path_views(prev), key, p);
                    if p == key {
                        assert((target.kv()[j as int]).0 == p);
                    } else {
                        let k = choose|k: int| 0 <= k < j && (target.kv()[k]).0 == p;
                        assert(0 <= k < j as int + 1 && (target.kv()[k]).0 == p);
                    }
                }
                assert forall|p: Seq<char>| key_among(target.kv(), j as int + 1, p) && sync_set(
                    current@,
                    target@,
                ).contains(p) implies #[trigger] path_views(to_sync@).contains(p) by {
                    lemma_push_contains(path_views(prev), key, p);
                    if p != key {
                        let k = choose|k: int| 0 <= k < j as int + 1 && (target.kv()[k]).0 == p;
                        assert(0 <= k < j && (target.kv()[k]).0 == p);
                    }
                }
            }
        } else {
            proof {
                assert(!sync_set(current@, target@).contains(key));
                assert forall|p: Seq<char>| #[trigger] path_views(to_sync@).contains(p) implies
                    key_among(target.kv(), j as int + 1, p) && sync_set(
                    current@,
                    target@,
                ).contains(p) by {
                    let k = choose|k: int| 0 <= k < j && (target.kv()[k]).0 == p;
                    assert(0 <= k < j as int + 1 && (target.kv()[k]).0 == p);
                }
                assert forall|p: Seq<char>| key_among(target.kv(), j as int + 1, p) && sync_set(
                    current@,
                    target@,
                ).contains(p) implies #[trigger] path_views(to_sync@).contains(p) by {
                    let k = choose|k: int| 0 <= k < j as int + 1 && (target.kv()[k]).0 == p;
                    if k == j {
                        assert((target.kv()[j as int]).0 == p);
                        assert(false);
                    } else {
                        assert(key_among(target.kv(), j as int, p));
                    }
                }
            }
        }
        j += 1;
    }

    let r = SyncActions { to_delete, to_sync };
    proof {
        assert forall|p: Seq<char>| #[trigger] path_views(r.to_delete@).contains(p) <==> delete_set(
            current@,
            target@,
        ).contains(p) by {
            if delete_set(current@, target@).contains(p) {
                assert(current@.contains_key(p));
            }
        }
        assert forall|p: Seq<char>| #[trigger] path_views(r.to_sync@).contains(p) <==> sync_set(
            current@,
            target@,
        ).contains(p) by {
            if sync_set(current@, target@).contains(p) {
                assert(target@.contains_key(p));
            }
        }
    }
    r
}

/// Idempotence on no-op convergence: reconciling any manifest against
/// itself plans no deletion and no transfer.
pub proof fn lemma_reconcile_self(m: Map<Seq<char>, EntryModel>)
    ensures
        delete_set(m, m) == Set::<Seq<char>>::empty(),
        sync_set(m, m) == Set::<Seq<char>>::empty(),
{
    assert(delete_set(m, m) =~= Set::<Seq<char>>::empty());
    assert(sync_set(m, m) =~= Set::<Seq<char>>::empty());
}

/// Size is never what declares a path changed: when both manifests hold a
/// path with the same checksum, no action is planned for it, whatever the
/// two recorded sizes are.
pub proof fn lemma_size_never_decides(
    cur: Map<Seq<char>, EntryModel>,
    tgt: Map<Seq<char>, EntryModel>,
    p: Seq<char>,
)
    requires
        cur.contains_key(p),
        tgt.contains_key(p),
        cur[p].checksum == tgt[p].checksum,
    ensures
        !delete_set(cur, tgt).contains(p),
        !sync_set(cur, tgt).contains(p),
{
}

} // verus!
