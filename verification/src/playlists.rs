//! User playlists: named lists of track paths, listed by name.

use vstd::prelude::*;
use crate::library::{string_views, contains_string};
use crate::order::{text_lt, text_less, lemma_text_lt_total, lemma_text_lt_transitive, lemma_text_lt_irreflexive};
use crate::text::{chars_of, text_eq};

verus! {

/// A named list of track paths.
pub struct Playlist {
    pub name: String,
    pub paths: Vec<String>,
}

/// All playlists, kept in order of name, each name once.
pub struct Playlists {
    pub lists: Vec<Playlist>,
}

/// The paths of a playlist.
pub open spec fn playlist_paths(p: Playlist) -> Seq<Seq<char>> {
    string_views(p.paths@)
}

impl Playlists {
    /// Whether the names are in strictly increasing order (so each occurs once).
    pub open spec fn wf(&self) -> bool {
        forall|i: int, j: int| 0 <= i < j < self.lists@.len() ==> text_lt(
            (#[trigger] self.lists@[i]).name@,
            (#[trigger] self.lists@[j]).name@,
        )
    }

    /// No playlists.
    pub fn new() -> (p: Playlists)
        ensures
            p.wf(),
            p.lists@.len() == 0,
    {
        Playlists { lists: Vec::new() }
    }

    /// The number of playlists.
    pub fn len(&self) -> (n: usize)
        ensures
            n == self.lists@.len(),
    {
        self.lists.len()
    }

    /// The position of the playlist named `name`, if there is one.
    pub fn find(&self, name: &str) -> (r: Option<usize>)
        ensures
            match r {
                Some(i) => i < self.lists@.len() && self.lists@[i as int].name@ == name@,
                None => forall|i: int| 0 <= i < self.lists@.len() ==> self.lists@[i].name@ != name@,
            },
    {
        let mut i: usize = 0;
        while i < self.lists.len()
            invariant
                i <= self.lists@.len(),
                forall|k: int| 0 <= k < i ==> self.lists@[k].name@ != name@,
            decreases self.lists@.len() - i,
        {
            if text_eq(self.lists[i].name.as_str(), name) {
                return Some(i);
            }
            i = i + 1;
        }
        None
    }

    /// The position of the playlist named `name`, adding it, empty, at its
    /// place in name order when there is none (`entry(..).or_insert`).
    pub fn entry(&mut self, name: String) -> (idx: usize)
        requires
            old(self).wf(),
        ensures
            final(self).wf(),
            idx < final(self).lists@.len(),
            final(self).lists@[idx as int].name@ == name@,
            (exists|i: int| 0 <= i < old(self).lists@.len() && old(self).lists@[i].name@ == name@)
                ==> final(self).lists@ == old(self).lists@,
            (forall|i: int| 0 <= i < old(self).lists@.len() ==> old(self).lists@[i].name@ != name@)
                ==> final(self).lists@.len() == old(self).lists@.len() + 1
                    && final(self).lists@[idx as int].paths@.len() == 0
                    && final(self).lists@.remove(idx as int) == old(self).lists@,
    {
        let n = chars_of(name.as_str());
        let mut i: usize = 0;
        while i < self.lists.len() && text_less(&chars_of(self.lists[i].name.as_str()), &n)
            invariant
                i <= self.lists@.len(),
                n@ == name@,
                self.wf(),
                forall|k: int| 0 <= k < i ==> text_lt(self.lists@[k].name@, name@),
            decreases self.lists@.len() - i,
        {
            i = i + 1;
        }
        if i < self.lists.len() && text_eq(self.lists[i].name.as_str(), name.as_str()) {
            return i;
        }
        let ghost before = self.lists@;
        proof {
            if i < before.len() {
                lemma_text_lt_total(before[i as int].name@, name@);
                assert(text_lt(name@, before[i as int].name@));
            }
            assert forall|k: int| 0 <= k < before.len() implies before[k].name@ != name@ by {
                lemma_text_lt_irreflexive(name@);
                if k > i {
                    assert(text_lt(before[i as int].name@, before[k].name@));
                    lemma_text_lt_transitive(name@, before[i as int].name@, before[k].name@);
                }
            }
        }
        self.lists.insert(i, Playlist { name, paths: Vec::new() });
        proof {
            let after = self.lists@;
            assert forall|a: int, b: int| 0 <= a < b < after.len() implies text_lt((#[trigger] after[a]).name@, (#[trigger] after[b]).name@) by {
                if b == i {
                    assert(after[a] == before[a]);
                } else if a == i {
                    assert(after[b] == before[b - 1]);
                    if b - 1 > i {
                        assert(text_lt(before[i as int].name@, before[b - 1].name@));
                        lemma_text_lt_transitive(name@, before[i as int].name@, before[b - 1].name@);
                    }
                } else {
                    let a0 = if a < i { a } else { a - 1 };
                    let b0 = if b < i { b } else { b - 1 };
                    assert(after[a] == before[a0]);
                    assert(after[b] == before[b0]);
                }
            }
            assert(after.remove(i as int) =~= before);
        }
        i
    }

    /// Whether the playlist at `idx` holds `path`.
    pub fn contains_path(&self, idx: usize, path: &String) -> (b: bool)
        requires
            idx < self.lists@.len(),
        ensures
            b == playlist_paths(self.lists@[idx as int]).contains(path@),
    {
        contains_string(&self.lists[idx].paths, path)
    }

    /// Appends `path` to the playlist at `idx`.
    pub fn push_path(&mut self, idx: usize, path: String)
        requires
            idx < old(self).lists@.len(),
        ensures
            final(self).lists@.len() == old(self).lists@.len(),
            final(self).lists@[idx as int].name == old(self).lists@[idx as int].name,
            final(self).lists@[idx as int].paths@ == old(self).lists@[idx as int].paths@.push(path),
            forall|i: int| 0 <= i < old(self).lists@.len() && i != idx ==> final(self).lists@[i] == old(self).lists@[i],
            old(self).wf() ==> final(self).wf(),
    {
        let ghost before = self.lists@;
        let mut p = self.lists.remove(idx);
        p.paths.push(path);
        self.lists.insert(idx, p);
        proof {
            let after = self.lists@;
            assert forall|i: int| 0 <= i < before.len() && i != idx implies after[i] == before[i] by {}
            assert forall|i: int| 0 <= i < after.len() implies (#[trigger] after[i]).name == before[i].name by {}
        }
    }

    /// Appends `path` to the playlist at `idx` unless it already holds it.
    /// Gives whether it was added.
    pub fn add_path_if_absent(&mut self, idx: usize, path: String) -> (added: bool)
        requires
            idx < old(self).lists@.len(),
        ensures
            added_if_absent(*old(self), idx as int, path@, *final(self), added),
            old(self).wf() ==> final(self).wf(),
    {
        if self.contains_path(idx, &path) {
            return false;
        }
        let ghost before = *self;
        let ghost pv = path@;
        self.push_path(idx, path);
        assert(playlist_paths(self.lists@[idx as int]) =~= playlist_paths(before.lists@[idx as int]).push(pv));
        true
    }

    /// Removes the path at `t_idx` from the playlist at `idx`.
    pub fn remove_path(&mut self, idx: usize, t_idx: usize)
        requires
            idx < old(self).lists@.len(),
            t_idx < old(self).lists@[idx as int].paths@.len(),
        ensures
            final(self).lists@.len() == old(self).lists@.len(),
            final(self).lists@[idx as int].name == old(self).lists@[idx as int].name,
            final(self).lists@[idx as int].paths@ == old(self).lists@[idx as int].paths@.remove(t_idx as int),
            forall|i: int| 0 <= i < old(self).lists@.len() && i != idx ==> final(self).lists@[i] == old(self).lists@[i],
            old(self).wf() ==> final(self).wf(),
    {
        let ghost before = self.lists@;
        let mut p = self.lists.remove(idx);
        p.paths.remove(t_idx);
        self.lists.insert(idx, p);
        proof {
            let after = self.lists@;
            assert forall|i: int| 0 <= i < before.len() && i != idx implies after[i] == before[i] by {}
            assert forall|i: int| 0 <= i < after.len() implies (#[trigger] after[i]).name == before[i].name by {}
        }
    }

    /// Removes the playlist at `idx`.
    pub fn remove_list(&mut self, idx: usize)
        requires
            idx < old(self).lists@.len(),
        ensures
            final(self).lists@ == old(self).lists@.remove(idx as int),
            old(self).wf() ==> final(self).wf(),
    {
        self.lists.remove(idx);
    }

    /// The playlists read from their saved form: one per name given, each
    /// with the paths given for it (the last list, for a repeated name).
    pub fn from_entries(entries: Vec<(String, Vec<String>)>) -> (p: Playlists)
        ensures
            p.wf(),
            forall|k: int| 0 <= k < entries@.len() ==> has_list_named(p.lists@, (#[trigger] entries@[k]).0@),
            forall|i: int| 0 <= i < p.lists@.len() ==> holds_last_entry(entries@, #[trigger] p.lists@[i]),
    {
        let ghost orig = entries@;
        let total = entries.len();
        let mut rest = entries;
        let mut p = Playlists::new();
        let mut n: usize = 0;
        while rest.len() > 0
            invariant
                n + rest@.len() == orig.len(),
                orig.len() == total,
                rest@ == orig.skip(n as int),
                p.wf(),
                forall|k: int| 0 <= k < n ==> has_list_named(p.lists@, (#[trigger] orig[k]).0@),
                forall|i: int| 0 <= i < p.lists@.len() ==> holds_last_entry(orig.take(n as int), #[trigger] p.lists@[i]),
            decreases rest@.len(),
        {
            let (name, paths) = rest.remove(0);
            assert(orig[n as int].0 == name);
            let ghost before = p.lists@;
            let idx = p.entry(name);
            let ghost mid = p.lists@;
            proof {
                assert forall|k: int| 0 <= k < n implies has_list_named(mid, (#[trigger] orig[k]).0@) by {
                    let i = choose|i: int| 0 <= i < before.len() && before[i].name@ == orig[k].0@;
                    if mid.len() == before.len() {
                        assert(mid[i] == before[i]);
                    } else {
                        assert(mid.remove(idx as int)[i] == before[i]);
                        let ai = if i < idx { i } else { i + 1 };
                        assert(mid[ai] == before[i]);
                    }
                }
                assert forall|i: int| 0 <= i < mid.len() && i != idx implies holds_last_entry(orig.take(n as int), #[trigger] mid[i]) by {
                    if mid.len() == before.len() {
                        assert(mid[i] == before[i]);
                    } else {
                        let bi = if i < idx { i } else { i - 1 };
                        assert(mid.remove(idx as int)[bi] == before[bi]);
                        assert(mid[i] == before[bi]);
                    }
                }
            }
            let ghost pv = paths@;
            let mut list = p.lists.remove(idx);
            list.paths = paths;
            p.lists.insert(idx, list);
            proof {
                let after = p.lists@;
                assert(after[idx as int].paths@ == pv);
                assert forall|i: int| 0 <= i < after.len() && i != idx implies after[i] == mid[i] by {}
                assert forall|i: int| 0 <= i < after.len() implies (#[trigger] after[i]).name == mid[i].name by {}
                assert forall|a: int, b: int| 0 <= a < b < after.len() implies text_lt((#[trigger] after[a]).name@, (#[trigger] after[b]).name@) by {
                    assert(after[a].name == mid[a].name);
                    assert(after[b].name == mid[b].name);
                }
                assert forall|k: int| 0 <= k < n + 1 implies has_list_named(after, (#[trigger] orig[k]).0@) by {
                    if k == n {
                        assert(after[idx as int].name == mid[idx as int].name);
                    } else {
                        let i = choose|i: int| 0 <= i < mid.len() && mid[i].name@ == orig[k].0@;
                        assert(after[i].name == mid[i].name);
                    }
                }
                let taken = orig.take(n + 1);
                assert(taken.drop_last() =~= orig.take(n as int));
                assert forall|i: int| 0 <= i < after.len() implies holds_last_entry(taken, #[trigger] after[i]) by {
                    if i == idx {
                        assert(taken[n as int] == orig[n as int]);
                    } else {
                        assert(after[i] == mid[i]);
                        assert(holds_last_entry(orig.take(n as int), mid[i]));
                        lemma_wf_names_differ(p, i, idx as int);
                        let k = choose|k: int| 0 <= k < n && orig.take(n as int)[k].0@ == mid[i].name@
                            && mid[i].paths@ == orig.take(n as int)[k].1@
                            && forall|j: int| k < j < n ==> orig.take(n as int)[j].0@ != mid[i].name@;
                        assert(taken[k] == orig.take(n as int)[k]);
                        assert forall|j: int| k < j < n + 1 implies taken[j].0@ != after[i].name@ by {
                            if j < n {
                                assert(taken[j] == orig.take(n as int)[j]);
                            }
                        }
                    }
                }
            }
            n = n + 1;
        }
        assert(orig.take(n as int) =~= orig);
        p
    }
}

/// Whether a playlist holds the paths of the last entry with its name.
pub open spec fn holds_last_entry(entries: Seq<(String, Vec<String>)>, l: Playlist) -> bool {
    exists|k: int| {
        &&& 0 <= k < entries.len()
        &&& #[trigger] entries[k].0@ == l.name@
        &&& l.paths@ == entries[k].1@
        &&& forall|j: int| k < j < entries.len() ==> entries[j].0@ != l.name@
    }
}

/// Playlists sorted by name have different names.
proof fn lemma_wf_names_differ(p: Playlists, i: int, j: int)
    requires
        p.wf(),
        0 <= i < p.lists@.len(),
        0 <= j < p.lists@.len(),
        i != j,
    ensures
        p.lists@[i].name@ != p.lists@[j].name@,
{
    lemma_text_lt_irreflexive(p.lists@[i].name@);
    if i < j {
        assert(text_lt(p.lists@[i].name@, p.lists@[j].name@));
    } else {
        assert(text_lt(p.lists@[j].name@, p.lists@[i].name@));
    }
}

/// Whether `n` is `p` after adding `path` to the playlist at `idx` unless
/// it holds it already, `added` telling whether it was added.
pub open spec fn added_if_absent(p: Playlists, idx: int, path: Seq<char>, n: Playlists, added: bool) -> bool {
    &&& added == !playlist_paths(p.lists@[idx]).contains(path)
    &&& added ==> n.lists@.len() == p.lists@.len()
        && n.lists@[idx].name == p.lists@[idx].name
        && playlist_paths(n.lists@[idx]) == playlist_paths(p.lists@[idx]).push(path)
        && forall|i: int| 0 <= i < p.lists@.len() && i != idx ==> n.lists@[i] == p.lists@[i]
    &&& !added ==> n == p
}

/// Adding a path to a playlist twice is the same as adding it once: the
/// second time nothing changes.
pub proof fn law_add_path_twice(p: Playlists, idx: int, path: Seq<char>, m: Playlists, a1: bool, n: Playlists, a2: bool)
    requires
        0 <= idx < p.lists@.len(),
        added_if_absent(p, idx, path, m, a1),
        added_if_absent(m, idx, path, n, a2),
    ensures
        !a2,
        n == m,
        playlist_paths(m.lists@[idx]).contains(path),
{
    if a1 {
        assert(playlist_paths(m.lists@[idx]).last() == path);
    }
}

/// Whether some playlist is named `n`.
pub open spec fn has_list_named(lists: Seq<Playlist>, n: Seq<char>) -> bool {
    exists|i: int| 0 <= i < lists.len() && lists[i].name@ == n
}

} // verus!
