//! An in-memory picture of the directory tree the engines mutate: a list
//! of files, each a name (a byte-string path) with its content.
//!
//! The engines read and write the tree through first-match lookup,
//! store and remove operations, each proved against a recursive
//! specification. The install and uninstall runs are verified over this
//! picture; the surrounding program mirrors each mutation onto the real
//! filesystem.

use vstd::prelude::*;

verus! {

/// One file: its path and its content.
pub struct FileEntry {
    pub name: Vec<u8>,
    pub data: Vec<u8>,
}

/// A tree as the specifications see it: a sequence of (name, content)
/// pairs.
pub type TreeView = Seq<(Seq<u8>, Seq<u8>)>;

/// The tree behind a list of file entries.
pub open spec fn tree_view(t: Seq<FileEntry>) -> TreeView {
    t.map_values(|e: FileEntry| (e.name@, e.data@))
}

/// The content of the first file named `name`, if any.
pub open spec fn lookup_spec(t: TreeView, name: Seq<u8>) -> Option<Seq<u8>>
    decreases t.len(),
{
    if t.len() == 0 {
        None
    } else if t[0].0 == name {
        Some(t[0].1)
    } else {
        lookup_spec(t.skip(1), name)
    }
}

/// The tree after writing `data` under `name`: the first file of that
/// name is replaced, or a new one is appended.
pub open spec fn store_spec(t: TreeView, name: Seq<u8>, data: Seq<u8>) -> TreeView
    decreases t.len(),
{
    if t.len() == 0 {
        seq![(name, data)]
    } else if t[0].0 == name {
        seq![(name, data)] + t.skip(1)
    } else {
        seq![t[0]] + store_spec(t.skip(1), name, data)
    }
}

/// The tree after deleting the first file named `name`, if any.
pub open spec fn remove_spec(t: TreeView, name: Seq<u8>) -> TreeView
    decreases t.len(),
{
    if t.len() == 0 {
        t
    } else if t[0].0 == name {
        t.skip(1)
    } else {
        seq![t[0]] + remove_spec(t.skip(1), name)
    }
}

/// No two files of the tree share a name.
pub open spec fn names_unique(t: TreeView) -> bool {
    forall|i: int, j: int| 0 <= i < j < t.len() ==> t[i].0 != t[j].0
}

/// A tree holds an entry under `name` exactly when looking `name` up
/// yields something.
pub proof fn lemma_lookup_present(t: TreeView, k: int)
    requires
        0 <= k < t.len(),
    ensures
        lookup_spec(t, t[k].0) is Some,
    decreases k,
{
    if t[0].0 != t[k].0 {
        lemma_lookup_present(t.skip(1), k - 1);
    }
}

/// Removing a name from a tree of unique names keeps the names unique,
/// keeps only entries of the old tree, and leaves no entry of that name.
pub proof fn lemma_remove_props(t: TreeView, x: Seq<u8>)
    requires
        names_unique(t),
    ensures
        names_unique(remove_spec(t, x)),
        forall|k: int| 0 <= k < remove_spec(t, x).len()
            ==> (#[trigger] remove_spec(t, x)[k]).0 != x && t.contains(remove_spec(t, x)[k]),
    decreases t.len(),
{
    let r = remove_spec(t, x);
    if t.len() == 0 {
    } else if t[0].0 == x {
        assert forall|k: int| 0 <= k < r.len() implies (#[trigger] r[k]).0 != x
            && t.contains(r[k]) by {
            assert(r[k] == t[k + 1]);
        }
    } else {
        assert(names_unique(t.skip(1))) by {
            assert forall|i: int, j: int| 0 <= i < j < t.skip(1).len()
                implies t.skip(1)[i].0 != t.skip(1)[j].0 by {
                assert(t.skip(1)[i] == t[i + 1] && t.skip(1)[j] == t[j + 1]);
            }
        }
        lemma_remove_props(t.skip(1), x);
        let rr = remove_spec(t.skip(1), x);
        assert forall|k: int| 0 <= k < r.len() implies (#[trigger] r[k]).0 != x
            && t.contains(r[k]) by {
            if k == 0 {
                assert(r[0] == t[0]);
            } else {
                assert(r[k] == rr[k - 1]);
                let m = choose|m: int| 0 <= m < t.skip(1).len() && t.skip(1)[m] == rr[k - 1];
                assert(t[m + 1] == rr[k - 1]);
            }
        }
        assert(names_unique(r)) by {
            assert forall|i: int, j: int| 0 <= i < j < r.len() implies r[i].0 != r[j].0 by {
                if i == 0 {
                    assert(r[j] == rr[j - 1]);
                    let m = choose|m: int| 0 <= m < t.skip(1).len() && t.skip(1)[m] == rr[j - 1];
                    assert(t[m + 1] == rr[j - 1]);
                    assert(t[0].0 != t[m + 1].0);
                } else {
                    assert(r[i] == rr[i - 1] && r[j] == rr[j - 1]);
                }
            }
        }
    }
}

/// Storing under a name in a tree of unique names keeps the names
/// unique; every entry of the result is the stored pair or an entry of
/// the old tree whose name differs from the stored one.
pub proof fn lemma_store_props(t: TreeView, x: Seq<u8>, d: Seq<u8>)
    requires
        names_unique(t),
    ensures
        names_unique(store_spec(t, x, d)),
        forall|k: int| 0 <= k < store_spec(t, x, d).len()
            ==> #[trigger] store_spec(t, x, d)[k] == (x, d)
                || (t.contains(store_spec(t, x, d)[k]) && store_spec(t, x, d)[k].0 != x),
    decreases t.len(),
{
    let r = store_spec(t, x, d);
    if t.len() == 0 {
    } else if t[0].0 == x {
        assert forall|k: int| 0 <= k < r.len() implies #[trigger] r[k] == (x, d)
            || (t.contains(r[k]) && r[k].0 != x) by {
            if k > 0 {
                assert(r[k] == t[k]);
                assert(t[0].0 != t[k].0);
            }
        }
        assert(names_unique(r)) by {
            assert forall|i: int, j: int| 0 <= i < j < r.len() implies r[i].0 != r[j].0 by {
                if i > 0 {
                    assert(r[i] == t[i] && r[j] == t[j]);
                } else {
                    assert(r[j] == t[j]);
                    assert(t[0].0 != t[j].0);
                }
            }
        }
    } else {
        assert(names_unique(t.skip(1))) by {
            assert forall|i: int, j: int| 0 <= i < j < t.skip(1).len()
                implies t.skip(1)[i].0 != t.skip(1)[j].0 by {
                assert(t.skip(1)[i] == t[i + 1] && t.skip(1)[j] == t[j + 1]);
            }
        }
        lemma_store_props(t.skip(1), x, d);
        let rr = store_spec(t.skip(1), x, d);
        assert forall|k: int| 0 <= k < r.len() implies #[trigger] r[k] == (x, d)
            || (t.contains(r[k]) && r[k].0 != x) by {
            if k == 0 {
                assert(r[0] == t[0]);
            } else {
                assert(r[k] == rr[k - 1]);
                if rr[k - 1] != (x, d) {
                    let m = choose|m: int|
                        0 <= m < t.skip(1).len() && t.skip(1)[m] == rr[k - 1];
                    assert(t[m + 1] == rr[k - 1]);
                }
            }
        }
        assert(names_unique(r)) by {
            assert forall|i: int, j: int| 0 <= i < j < r.len() implies r[i].0 != r[j].0 by {
                if i == 0 {
                    assert(r[j] == rr[j - 1]);
                    if rr[j - 1] == (x, d) {
                        assert(r[i].0 == t[0].0 && t[0].0 != x);
                    } else {
                        let m = choose|m: int|
                            0 <= m < t.skip(1).len() && t.skip(1)[m] == rr[j - 1];
                        assert(t[m + 1] == rr[j - 1]);
                        assert(t[0].0 != t[m + 1].0);
                    }
                } else {
                    assert(r[i] == rr[i - 1] && r[j] == rr[j - 1]);
                }
            }
        }
    }
}

/// What a lookup sees after a store: the stored content under the
/// stored name, and the old tree everywhere else.
pub proof fn lemma_lookup_store(t: TreeView, x: Seq<u8>, d: Seq<u8>, y: Seq<u8>)
    ensures
        lookup_spec(store_spec(t, x, d), y) == if y == x {
            Some(d)
        } else {
            lookup_spec(t, y)
        },
    decreases t.len(),
{
    let r = store_spec(t, x, d);
    if t.len() == 0 {
        assert(r.len() == 1);
        assert(r[0] == (x, d));
        assert(r.skip(1) =~= Seq::<(Seq<u8>, Seq<u8>)>::empty());
        if y == x {
            assert(lookup_spec(r, y) == Some(d));
        } else {
            assert(lookup_spec(r, y) == lookup_spec(r.skip(1), y));
            assert(lookup_spec(r.skip(1), y) is None);
        }
    } else if t[0].0 == x {
        assert(r.len() == t.len());
        assert(r[0] == (x, d));
        assert(r.skip(1) =~= t.skip(1));
        if y == x {
            assert(lookup_spec(r, y) == Some(d));
        } else {
            assert(lookup_spec(r, y) == lookup_spec(t.skip(1), y));
            assert(lookup_spec(t, y) == lookup_spec(t.skip(1), y));
        }
    } else {
        assert(r.len() > 0);
        assert(r[0] == t[0]);
        assert(r.skip(1) =~= store_spec(t.skip(1), x, d));
        lemma_lookup_store(t.skip(1), x, d, y);
        if y == t[0].0 {
            assert(lookup_spec(r, y) == Some(t[0].1));
            assert(lookup_spec(t, y) == Some(t[0].1));
        } else {
            assert(lookup_spec(r, y) == lookup_spec(store_spec(t.skip(1), x, d), y));
            assert(lookup_spec(t, y) == lookup_spec(t.skip(1), y));
        }
    }
}

/// The two byte strings are equal.
pub fn bytes_eq(a: &Vec<u8>, b: &Vec<u8>) -> (r: bool)
    ensures
        r == (a@ == b@),
{
    if a.len() != b.len() {
        assert(a@.len() != b@.len());
        return false;
    }
    let mut i: usize = 0;
    while i < a.len()
        invariant
            a@.len() == b@.len(),
            i <= a.len(),
            forall|j: int| 0 <= j < i ==> a@[j] == b@[j],
        decreases a.len() - i,
    {
        if a[i] != b[i] {
            return false;
        }
        i = i + 1;
    }
    proof {
        assert(a@ =~= b@);
    }
    true
}

/// The index of the first file named `name`, if any.
pub fn tree_find(t: &Vec<FileEntry>, name: &Vec<u8>) -> (r: Option<usize>)
    ensures
        (match r {
            Some(i) => i < t@.len() && t@[i as int].name@ == name@
                && forall|j: int| 0 <= j < i ==> t@[j].name@ != name@,
            None => forall|j: int| 0 <= j < t@.len() ==> t@[j].name@ != name@,
        }),
{
    let mut i: usize = 0;
    while i < t.len()
        invariant
            i <= t@.len(),
            forall|j: int| 0 <= j < i ==> t@[j].name@ != name@,
        decreases t.len() - i,
    {
        if bytes_eq(&t[i].name, name) {
            return Some(i);
        }
        i = i + 1;
    }
    None
}

/// When the first match stands at `i`, looking `name` up yields that
/// entry's content.
pub proof fn lemma_lookup_at(t: TreeView, name: Seq<u8>, i: int)
    requires
        0 <= i < t.len(),
        t[i].0 == name,
        forall|j: int| 0 <= j < i ==> t[j].0 != name,
    ensures
        lookup_spec(t, name) == Some(t[i].1),
    decreases i,
{
    if i > 0 {
        lemma_lookup_at(t.skip(1), name, i - 1);
    }
}

/// When no entry carries `name`, looking it up yields nothing.
pub proof fn lemma_lookup_none(t: TreeView, name: Seq<u8>)
    requires
        forall|j: int| 0 <= j < t.len() ==> t[j].0 != name,
    ensures
        lookup_spec(t, name) is None,
    decreases t.len(),
{
    if t.len() > 0 {
        lemma_lookup_none(t.skip(1), name);
    }
}

/// When the first match stands at `i`, storing under `name` updates that
/// entry in place.
pub proof fn lemma_store_at(t: TreeView, name: Seq<u8>, data: Seq<u8>, i: int)
    requires
        0 <= i < t.len(),
        t[i].0 == name,
        forall|j: int| 0 <= j < i ==> t[j].0 != name,
    ensures
        store_spec(t, name, data) == t.update(i, (name, data)),
    decreases i,
{
    if i == 0 {
        assert(seq![(name, data)] + t.skip(1) =~= t.update(0, (name, data)));
    } else {
        lemma_store_at(t.skip(1), name, data, i - 1);
        assert(seq![t[0]] + t.skip(1).update(i - 1, (name, data)) =~= t.update(i, (name, data)));
    }
}

/// When no entry carries `name`, storing under it appends.
pub proof fn lemma_store_none(t: TreeView, name: Seq<u8>, data: Seq<u8>)
    requires
        forall|j: int| 0 <= j < t.len() ==> t[j].0 != name,
    ensures
        store_spec(t, name, data) == t.push((name, data)),
    decreases t.len(),
{
    if t.len() == 0 {
        assert(seq![(name, data)] =~= t.push((name, data)));
    } else {
        lemma_store_none(t.skip(1), name, data);
        assert(seq![t[0]] + t.skip(1).push((name, data)) =~= t.push((name, data)));
    }
}

/// When the first match stands at `i`, removing `name` drops that entry.
pub proof fn lemma_remove_at(t: TreeView, name: Seq<u8>, i: int)
    requires
        0 <= i < t.len(),
        t[i].0 == name,
        forall|j: int| 0 <= j < i ==> t[j].0 != name,
    ensures
        remove_spec(t, name) == t.subrange(0, i) + t.skip(i + 1),
    decreases i,
{
    if i == 0 {
        assert(t.skip(1) =~= t.subrange(0, 0) + t.skip(1));
    } else {
        lemma_remove_at(t.skip(1), name, i - 1);
        assert(seq![t[0]] + (t.skip(1).subrange(0, i - 1) + t.skip(1).skip(i))
            =~= t.subrange(0, i) + t.skip(i + 1));
    }
}

/// When no entry carries `name`, removing it changes nothing.
pub proof fn lemma_remove_none(t: TreeView, name: Seq<u8>)
    requires
        forall|j: int| 0 <= j < t.len() ==> t[j].0 != name,
    ensures
        remove_spec(t, name) == t,
    decreases t.len(),
{
    if t.len() > 0 {
        lemma_remove_none(t.skip(1), name);
        assert(seq![t[0]] + t.skip(1) =~= t);
    }
}

/// The content of the first file named `name`, or nothing.
pub fn tree_lookup<'a>(t: &'a Vec<FileEntry>, name: &Vec<u8>) -> (r: Option<&'a Vec<u8>>)
    ensures
        (match r {
            Some(d) => lookup_spec(tree_view(t@), name@) == Some(d@),
            None => lookup_spec(tree_view(t@), name@) is None,
        }),
{
    let found = tree_find(t, name);
    match found {
        Some(i) => {
            proof {
                lemma_lookup_at(tree_view(t@), name@, i as int);
            }
            Some(&t[i].data)
        },
        None => {
            proof {
                lemma_lookup_none(tree_view(t@), name@);
            }
            None
        },
    }
}

/// Write `data` under `name`: replace the first file of that name, or
/// append a new one.
pub fn tree_store(t: &mut Vec<FileEntry>, name: Vec<u8>, data: Vec<u8>)
    ensures
        tree_view(final(t)@) == store_spec(tree_view(old(t)@), name@, data@),
{
    let ghost name_v = name@;
    let ghost data_v = data@;
    let found = tree_find(t, &name);
    match found {
        Some(i) => {
            proof {
                lemma_store_at(tree_view(t@), name_v, data_v, i as int);
            }
            t.remove(i);
            t.insert(i, FileEntry { name, data });
            proof {
                assert(tree_view(t@) =~= store_spec(tree_view(old(t)@), name_v, data_v));
            }
        },
        None => {
            proof {
                lemma_store_none(tree_view(t@), name_v, data_v);
            }
            t.push(FileEntry { name, data });
            proof {
                assert(tree_view(t@) =~= store_spec(tree_view(old(t)@), name_v, data_v));
            }
        },
    }
}

/// Delete the first file named `name`, if any.
pub fn tree_remove(t: &mut Vec<FileEntry>, name: &Vec<u8>)
    ensures
        tree_view(final(t)@) == remove_spec(tree_view(old(t)@), name@),
{
    let found = tree_find(t, name);
    match found {
        Some(i) => {
            proof {
                lemma_remove_at(tree_view(t@), name@, i as int);
            }
            t.remove(i);
            proof {
                assert(tree_view(t@) =~= remove_spec(tree_view(old(t)@), name@));
            }
        },
        None => {
            proof {
                lemma_remove_none(tree_view(t@), name@);
            }
        },
    }
}

} // verus!
