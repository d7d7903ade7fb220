//! The manifest model: a mapping from relative path to the content identity
//! (checksum) and size of one file. Paths are unique; an empty manifest is
//! valid. Two manifests agree at a path exactly when both hold the path and
//! the checksums match — size is informational only.

use vstd::prelude::*;
use crate::packs::DataPacks;

verus! {

/// Ghost model of an [`Entry`]: the checksum characters and the byte count.
pub ghost struct EntryModel {
    pub checksum: Seq<char>,
    pub size_bytes: nat,
}

/// One manifest record: the content identity and size of a single file.
pub struct Entry {
    pub checksum: String,
    pub size_bytes: usize,
}

impl View for Entry {
    type V = EntryModel;

    open spec fn view(&self) -> EntryModel {
        EntryModel { checksum: self.checksum@, size_bytes: self.size_bytes as nat }
    }
}

impl Entry {
    /// A copy of this record, equal in the model.
    pub fn dup(&self) -> (r: Entry)
        ensures
            r@ == self@,
    {
        Entry { checksum: self.checksum.clone(), size_bytes: self.size_bytes }
    }
}

/// The map described by an association sequence, later pairs taking
/// precedence; a well-formed manifest has no repeated path, so precedence
/// never matters there.
pub open spec fn assoc_map(s: Seq<(Seq<char>, EntryModel)>) -> Map<Seq<char>, EntryModel>
    decreases s.len(),
{
    if s.len() == 0 {
        Map::empty()
    } else {
        assoc_map(s.drop_last()).insert(s.last().0, s.last().1)
    }
}

/// Some pair before position `bound` of the sequence carries path `p`.
pub open spec fn key_among(s: Seq<(Seq<char>, EntryModel)>, bound: int, p: Seq<char>) -> bool {
    exists|i: int| 0 <= i < bound && (#[trigger] s[i]).0 == p
}

/// A path is in the map exactly when some pair of the sequence carries it.
pub proof fn lemma_assoc_map_dom(s: Seq<(Seq<char>, EntryModel)>)
    ensures
        forall|p: Seq<char>|
            #[trigger] assoc_map(s).contains_key(p) <==> key_among(s, s.len() as int, p),
    decreases s.len(),
{
    if s.len() > 0 {
        lemma_assoc_map_dom(s.drop_last());
        assert forall|p: Seq<char>| #[trigger] assoc_map(s).contains_key(p) implies key_among(
            s,
            s.len() as int,
            p,
        ) by {
            if p == s.last().0 {
                assert(0 <= s.len() - 1 < s.len() && (s[s.len() - 1]).0 == p);
            } else {
                assert(assoc_map(s.drop_last()).contains_key(p));
                let i = choose|i: int| 0 <= i < s.drop_last().len() && (s.drop_last()[i]).0 == p;
                assert(s.drop_last()[i] == s[i]);
                assert(0 <= i < s.len() && (s[i]).0 == p);
            }
        }
        assert forall|p: Seq<char>| key_among(s, s.len() as int, p)
            implies #[trigger] assoc_map(s).contains_key(p) by {
            let i = choose|i: int| 0 <= i < s.len() && (s[i]).0 == p;
            if i < s.len() - 1 {
                assert(s.drop_last()[i] == s[i]);
                assert((s.drop_last()[i]).0 == p);
                assert(assoc_map(s.drop_last()).contains_key(p));
            } else {
                assert(p == s.last().0);
            }
        }
    }
}

/// With unique paths, the map's value at a pair's path is that pair's entry.
pub proof fn lemma_assoc_map_at(s: Seq<(Seq<char>, EntryModel)>, i: int)
    requires
        forall|a: int, b: int| 0 <= a < b < s.len() ==> s[a].0 != s[b].0,
        0 <= i < s.len(),
    ensures
        assoc_map(s).contains_key(s[i].0),
        assoc_map(s)[s[i].0] == s[i].1,
    decreases s.len(),
{
    if i == s.len() - 1 {
    } else {
        lemma_assoc_map_at(s.drop_last(), i);
        assert(s.drop_last()[i] == s[i]);
        assert(s.last().0 != s[i].0);
    }
}

/// The authoritative mapping from relative path to [`Entry`], kept as a
/// vector of pairs with pairwise-distinct paths.
pub struct Manifest {
    entries: Vec<(String, Entry)>,
}

impl View for Manifest {
    type V = Map<Seq<char>, EntryModel>;

    open spec fn view(&self) -> Map<Seq<char>, EntryModel> {
        assoc_map(self.kv())
    }
}

impl Manifest {
    /// The pair sequence in insertion order.
    pub closed spec fn kv(&self) -> Seq<(Seq<char>, EntryModel)> {
        self.entries@.map_values(|p: (String, Entry)| (p.0@, p.1@))
    }

    /// Paths are pairwise distinct.
    pub open spec fn wf(&self) -> bool {
        forall|a: int, b: int| 0 <= a < b < self.kv().len() ==> self.kv()[a].0 != self.kv()[b].0
    }

    /// The manifest with no entries.
    pub fn new() -> (r: Manifest)
        ensures
            r.wf(),
            r@ == Map::<Seq<char>, EntryModel>::empty(),
            r.kv() == Seq::<(Seq<char>, EntryModel)>::empty(),
    {
        let r = Manifest { entries: Vec::new() };
        proof {
            assert(r.kv() =~= Seq::<(Seq<char>, EntryModel)>::empty());
        }
        r
    }

    /// How many paths are tracked.
    pub fn len(&self) -> (n: usize)
        ensures
            n == self.kv().len(),
    {
        self.entries.len()
    }

    /// The path at position `i` of the insertion order.
    pub fn path_at(&self, i: usize) -> (p: &String)
        requires
            i < self.kv().len(),
        ensures
            p@ == self.kv()[i as int].0,
    {
        &self.entries[i].0
    }

    /// The entry at position `i` of the insertion order.
    pub fn entry_at(&self, i: usize) -> (e: &Entry)
        requires
            i < self.kv().len(),
        ensures
            e@ == self.kv()[i as int].1,
    {
        &self.entries[i].1
    }

    /// Looks a path up, deciding membership in the model map.
    pub fn get(&self, path: &String) -> (r: Option<&Entry>)
        requires
            self.wf(),
        ensures
            match r {
                Some(e) => self@.contains_key(path@) && e@ == self@[path@],
                None => !self@.contains_key(path@),
            },
    {
        proof {
            lemma_assoc_map_dom(self.kv());
        }
        let n = self.entries.len();
        let mut i: usize = 0;
        while i < n
            invariant
                n == self.kv().len(),
                i <= n,
                self.wf(),
                forall|k: int| 0 <= k < i ==> self.kv()[k].0 != path@,
            decreases n - i,
        {
            if self.entries[i].0 == *path {
                proof {
                    lemma_assoc_map_at(self.kv(), i as int);
                }
                return Some(&self.entries[i].1);
            }
            i += 1;
        }
        None
    }

    /// Whether a path is tracked.
    pub fn contains_path(&self, path: &String) -> (r: bool)
        requires
            self.wf(),
        ensures
            r == self@.contains_key(path@),
    {
        self.get(path).is_some()
    }

    /// Records a new path. The path must not be tracked yet; a caller that
    /// cannot know checks with [`Manifest::contains_path`] first.
    pub fn insert(&mut self, path: String, entry: Entry)
        requires
            old(self).wf(),
            !old(self)@.contains_key(path@),
        ensures
            final(self).wf(),
            final(self)@ == old(self)@.insert(path@, entry@),
            final(self).kv() == old(self).kv().push((path@, entry@)),
    {
        proof {
            lemma_assoc_map_dom(old(self).kv());
        }
        let ghost old_kv = self.kv();
        let ghost p = path@;
        let ghost e = entry@;
        self.entries.push((path, entry));
        proof {
            assert(self.kv() =~= old_kv.push((p, e)));
            assert(self.kv().drop_last() =~= old_kv);
        }
    }

    /// The subset of this manifest whose paths belong to an enabled pack:
    /// the target used for download and dry-run. Entries are kept with
    /// their checksums untouched.
    pub fn filter(&self, packs: &DataPacks) -> (r: Manifest)
        requires
            self.wf(),
        ensures
            r.wf(),
            forall|p: Seq<char>|
                #[trigger] r@.contains_key(p) <==> self@.contains_key(p) && packs.allows(p),
            forall|p: Seq<char>| #[trigger] r@.contains_key(p) ==> r@[p] == self@[p],
    {
        proof {
            lemma_assoc_map_dom(self.kv());
        }
        let n = self.entries.len();
        let mut out = Manifest::new();
        let mut i: usize = 0;
        while i < n
            invariant
                n == self.kv().len(),
                i <= n,
                self.wf(),
                out.wf(),
                forall|p: Seq<char>|
                    #[trigger] out@.contains_key(p) <==> key_among(self.kv(), i as int, p)
                        && packs.allows(p),
                forall|p: Seq<char>| #[trigger] out@.contains_key(p) ==> out@[p] == self@[p],
            decreases n - i,
        {
            let ghost prev = out;
            let ghost key = self.kv()[i as int].0;
            if packs.allows_path(&self.entries[i].0) {
                proof {
                    if out@.contains_key(key) {
                        let k = choose|k: int| 0 <= k < i && (self.kv()[k]).0 == key;
                        assert((self.kv()[k]).0 == (self.kv()[i as int]).0);
                        assert(false);
                    }
                    lemma_assoc_map_at(self.kv(), i as int);
                }
                let path = self.entries[i].0.clone();
                let entry = self.entries[i].1.dup();
                out.insert(path, entry);
                proof {
                    assert forall|p: Seq<char>| #[trigger] out@.contains_key(p) implies key_among(
                        self.kv(),
                        i as int + 1,
                        p,
                    ) && packs.allows(p) by {
                        if p != key {
                            assert(prev@.contains_key(p));
                            let k = choose|k: int| 0 <= k < i && (self.kv()[k]).0 == p;
                            assert(0 <= k < i + 1 && (self.kv()[k]).0 == p);
                        } else {
                            assert((self.kv()[i as int]).0 == p);
                        }
                    }
                    assert forall|p: Seq<char>| key_among(self.kv(), i as int + 1, p) && packs.allows(p)
                        implies #[trigger] out@.contains_key(p) by {
                        let k = choose|k: int| 0 <= k < i + 1 && (self.kv()[k]).0 == p;
                        if k < i {
                            assert(key_among(self.kv(), i as int, p));
                            assert(prev@.contains_key(p));
                        }
                    }
                }
            } else {
                proof {
                    assert forall|p: Seq<char>| #[trigger] out@.contains_key(p) implies key_among(
                        self.kv(),
                        i as int + 1,
                        p,
                    ) && packs.allows(p) by {
                        let k = choose|k: int| 0 <= k < i && (self.kv()[k]).0 == p;
                        assert(0 <= k < i + 1 && (self.kv()[k]).0 == p);
                    }
                    assert forall|p: Seq<char>| key_among(self.kv(), i as int + 1, p) && packs.allows(p)
                        implies #[trigger] out@.contains_key(p) by {
                        let k = choose|k: int| 0 <= k < i + 1 && (self.kv()[k]).0 == p;
                        if k == i {
                            assert((self.kv()[i as int]).0 == p);
                            assert(!packs.allows(p));
                        } else {
                            assert(key_among(self.kv(), i as int, p));
                        }
                    }
                }
            }
            i += 1;
        }
        out
    }
}

} // verus!
