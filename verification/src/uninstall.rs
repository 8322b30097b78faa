//! The uninstall engine: scan a tree for `.bak` files and restore each
//! original by deleting the patched file and renaming the backup back
//! into place, recording a per-entry outcome and the aggregate counts.
//!
//! The run is specified and verified over the in-memory tree model; the
//! surrounding program mirrors every delete and rename onto the real
//! filesystem and feeds failures back per entry.

use vstd::prelude::*;
use crate::paths::{ends_with_bak, is_ambiguous_bak, is_restorable_bak, strip_bak, classify_backup, BackupClass};
use crate::tree::{FileEntry, TreeView, tree_view, lookup_spec, store_spec, remove_spec, tree_lookup, tree_store, tree_remove, names_unique, lemma_lookup_present, lemma_remove_props, lemma_store_props};

verus! {

/// How one directory entry fared during an uninstall pass.
#[derive(Clone, Copy, Debug, PartialEq, Eq, Structural)]
pub enum UninstallOutcome {
    /// The patched file was deleted and the backup renamed over it.
    Restored,
    /// No patched file stood at the original name; the backup was
    /// renamed into place anyway.
    NoCurrentFileNotedRestoredAnyway,
    /// The backup's name was `.bak` alone: no original name can be
    /// derived, nothing was attempted.
    AmbiguousBackupName,
    /// The patched file could not be deleted; the backup stays put.
    ErrorCannotRemoveCurrent,
    /// The patched file is gone but the backup could not be renamed.
    ErrorCannotRenameBackup,
}

/// Whether an outcome counts toward the error total; a run with any
/// error is reported as failed even when other files were restored.
pub fn outcome_is_error(o: &UninstallOutcome) -> (r: bool)
    ensures
        r == (o is AmbiguousBackupName || o is ErrorCannotRemoveCurrent
            || o is ErrorCannotRenameBackup),
{
    match o {
        UninstallOutcome::AmbiguousBackupName => true,
        UninstallOutcome::ErrorCannotRemoveCurrent => true,
        UninstallOutcome::ErrorCannotRenameBackup => true,
        UninstallOutcome::Restored => false,
        UninstallOutcome::NoCurrentFileNotedRestoredAnyway => false,
    }
}

/// A tree with the outcomes recorded so far and the running counts.
pub struct UninstallState {
    pub files: TreeView,
    pub outcomes: Seq<UninstallOutcome>,
    pub restored: nat,
    pub errors: nat,
}

/// The names of all files in a tree, in tree order.
pub open spec fn names_of(t: TreeView) -> Seq<Seq<u8>> {
    t.map_values(|p: (Seq<u8>, Seq<u8>)| p.0)
}

/// One uninstall step: what visiting the entry called `name` does to
/// the tree, the recorded outcomes and the counts. An entry that no
/// longer exists, or whose name
/// does not end in `.bak`, is passed over; a bare `.bak` counts an
/// error; any other backup restores: the current file at the original
/// name is deleted, then the backup is renamed over it.
pub open spec fn uninstall_entry_spec(s: UninstallState, name: Seq<u8>) -> UninstallState {
    match lookup_spec(s.files, name) {
        None => s,
        Some(data) => {
            if !ends_with_bak(name) {
                s
            } else if is_ambiguous_bak(name) {
                UninstallState {
                    files: s.files,
                    outcomes: s.outcomes.push(UninstallOutcome::AmbiguousBackupName),
                    restored: s.restored,
                    errors: s.errors + 1,
                }
            } else {
                let original = strip_bak(name);
                let outcome = if lookup_spec(s.files, original) is Some {
                    UninstallOutcome::Restored
                } else {
                    UninstallOutcome::NoCurrentFileNotedRestoredAnyway
                };
                let cleared = remove_spec(s.files, original);
                let renamed = store_spec(remove_spec(cleared, name), original, data);
                UninstallState {
                    files: renamed,
                    outcomes: s.outcomes.push(outcome),
                    restored: s.restored + 1,
                    errors: s.errors,
                }
            }
        },
    }
}

/// A whole uninstall pass: the entries are visited in list order.
pub open spec fn uninstall_run_spec(s: UninstallState, names: Seq<Seq<u8>>) -> UninstallState
    decreases names.len(),
{
    if names.len() == 0 {
        s
    } else {
        uninstall_run_spec(uninstall_entry_spec(s, names[0]), names.skip(1))
    }
}

/// No file of the tree is named like a backup.
pub open spec fn bak_free(t: TreeView) -> bool {
    forall|k: int| 0 <= k < t.len() ==> !ends_with_bak((#[trigger] t[k]).0)
}

/// Every backup name in the tree can actually be restored: it is not a
/// bare `.bak`, and stripping the suffix does not leave yet another
/// backup name.
pub open spec fn baks_restorable(t: TreeView) -> bool {
    forall|k: int|
        0 <= k < t.len() && ends_with_bak((#[trigger] t[k]).0)
            ==> is_restorable_bak(t[k].0) && !ends_with_bak(strip_bak(t[k].0))
}

/// A pass over names none of which is a backup name changes nothing and
/// counts nothing.
pub proof fn lemma_run_no_baks_noop(s: UninstallState, names: Seq<Seq<u8>>)
    requires
        forall|m: int| 0 <= m < names.len() ==> !ends_with_bak(#[trigger] names[m]),
    ensures
        uninstall_run_spec(s, names) == s,
    decreases names.len(),
{
    if names.len() > 0 {
        assert(uninstall_entry_spec(s, names[0]) == s);
        lemma_run_no_baks_noop(s, names.skip(1));
    }
}

/// A pass that visits every file of a tree of unique names, all of whose
/// backups are restorable, leaves a tree without any backup name.
pub proof fn lemma_run_clears_baks(s: UninstallState, names: Seq<Seq<u8>>)
    requires
        names_unique(s.files),
        forall|k: int|
            0 <= k < s.files.len() && ends_with_bak((#[trigger] s.files[k]).0)
                ==> names.contains(s.files[k].0),
        forall|m: int|
            0 <= m < names.len() && ends_with_bak(#[trigger] names[m])
                ==> is_restorable_bak(names[m]) && !ends_with_bak(strip_bak(names[m])),
    ensures
        bak_free(uninstall_run_spec(s, names).files),
    decreases names.len(),
{
    if names.len() == 0 {
        assert forall|k: int| 0 <= k < s.files.len()
            implies !ends_with_bak((#[trigger] s.files[k]).0) by {
            if ends_with_bak(s.files[k].0) {
                assert(names.contains(s.files[k].0));
            }
        }
    } else {
        let n0 = names[0];
        let s1 = uninstall_entry_spec(s, n0);
        let rest = names.skip(1);
        assert(forall|m: int| 0 <= m < rest.len() ==> rest[m] == names[m + 1]);

        assert forall|y: Seq<u8>| names.contains(y) && y != n0 implies rest.contains(y) by {
            let m = choose|m: int| 0 <= m < names.len() && names[m] == y;
            assert(rest[m - 1] == y);
        }

        match lookup_spec(s.files, n0) {
            None => {
                assert(s1 == s);
                assert forall|k: int|
                    0 <= k < s1.files.len() && ends_with_bak((#[trigger] s1.files[k]).0)
                    implies rest.contains(s1.files[k].0) by {
                    if s1.files[k].0 == n0 {
                        lemma_lookup_present(s.files, k);
                    }
                }
            },
            Some(data) => {
                if !ends_with_bak(n0) {
                    assert(s1 == s);
                    assert forall|k: int|
                        0 <= k < s1.files.len() && ends_with_bak((#[trigger] s1.files[k]).0)
                        implies rest.contains(s1.files[k].0) by {
                    }
                } else {
                    assert(is_restorable_bak(n0) && !ends_with_bak(strip_bak(n0)));
                    assert(!is_ambiguous_bak(n0));
                    let original = strip_bak(n0);
                    let cleared = remove_spec(s.files, original);
                    let cleared2 = remove_spec(cleared, n0);
                    lemma_remove_props(s.files, original);
                    lemma_remove_props(cleared, n0);
                    lemma_store_props(cleared2, original, data);
                    assert(s1.files == store_spec(cleared2, original, data));
                    assert forall|k: int|
                        0 <= k < s1.files.len() && ends_with_bak((#[trigger] s1.files[k]).0)
                        implies rest.contains(s1.files[k].0) by {
                        let e = s1.files[k];
                        assert(e != (original, data));
                        assert(cleared2.contains(e));
                        let a = choose|a: int| 0 <= a < cleared2.len() && cleared2[a] == e;
                        assert(cleared2[a].0 != n0);
                        assert(cleared.contains(e));
                        let b = choose|b: int| 0 <= b < cleared.len() && cleared[b] == e;
                        assert(s.files.contains(e));
                        let c = choose|c: int| 0 <= c < s.files.len() && s.files[c] == e;
                        assert(names.contains(s.files[c].0));
                    }
                    assert(names_unique(s1.files));
                }
            },
        }
        lemma_run_clears_baks(s1, rest);
        assert(uninstall_run_spec(s, names) == uninstall_run_spec(s1, rest));
    }
}

/// Uninstalling twice in a row is a no-op the second time: the first
/// pass leaves no backup name behind, so the second restores nothing,
/// counts no error, and leaves the tree as it found it. This holds for
/// trees of unique names whose backups are all restorable; a bare
/// `.bak`, or a backup of a backup such as one ending in `.bak.bak`,
/// survives the first pass and is counted again.
pub proof fn lemma_uninstall_idempotent(t: TreeView)
    requires
        names_unique(t),
        baks_restorable(t),
    ensures
        ({
            let s1 = uninstall_run_spec(
                UninstallState { files: t, outcomes: Seq::empty(), restored: 0, errors: 0 },
                names_of(t),
            );
            let s2 = uninstall_run_spec(
                UninstallState { files: s1.files, outcomes: Seq::empty(), restored: 0, errors: 0 },
                names_of(s1.files),
            );
            &&& bak_free(s1.files)
            &&& s2.files == s1.files
            &&& s2.outcomes == Seq::<UninstallOutcome>::empty()
            &&& s2.restored == 0
            &&& s2.errors == 0
        }),
{
    let s0 = UninstallState { files: t, outcomes: Seq::empty(), restored: 0, errors: 0 };
    let names = names_of(t);
    assert(forall|k: int| 0 <= k < t.len() ==> names[k] == (#[trigger] t[k]).0);
    assert forall|k: int|
        0 <= k < t.len() && ends_with_bak((#[trigger] t[k]).0) implies names.contains(t[k].0) by {
        assert(names[k] == t[k].0);
    }
    assert forall|m: int|
        0 <= m < names.len() && ends_with_bak(#[trigger] names[m])
        implies is_restorable_bak(names[m]) && !ends_with_bak(strip_bak(names[m])) by {
        assert(names[m] == t[m].0);
    }
    lemma_run_clears_baks(s0, names);
    let s1 = uninstall_run_spec(s0, names);
    let names1 = names_of(s1.files);
    assert forall|m: int| 0 <= m < names1.len() implies !ends_with_bak(#[trigger] names1[m]) by {
        assert(names1[m] == s1.files[m].0);
    }
    lemma_run_no_baks_noop(
        UninstallState { files: s1.files, outcomes: Seq::empty(), restored: 0, errors: 0 },
        names1,
    );
}

/// What an uninstall pass reports: the outcome of every backup entry
/// it acted on, and the aggregate counts.
pub struct UninstallReport {
    pub outcomes: Vec<UninstallOutcome>,
    pub restored: usize,
    pub errors: usize,
}

impl UninstallReport {
    /// Partial success is still failure: the pass succeeded only when no
    /// entry counted an error.
    pub fn succeeded(&self) -> (r: bool)
        ensures
            r == (self.errors == 0),
    {
        self.errors == 0
    }
}

/// Run the uninstall pass over an in-memory tree: visit every file the
/// tree held at the start, in order, and restore each backup found.
pub fn run_uninstall(tree: Vec<FileEntry>) -> (r: (Vec<FileEntry>, UninstallReport))
    ensures
        ({
            let start = UninstallState { files: tree_view(tree@), outcomes: Seq::empty(), restored: 0, errors: 0 };
            let end = uninstall_run_spec(start, names_of(tree_view(tree@)));
            tree_view(r.0@) == end.files
                && r.1.outcomes@ == end.outcomes
                && r.1.restored == end.restored
                && r.1.errors == end.errors
        }),
{
    let ghost t0 = tree_view(tree@);
    let ghost all_names = names_of(t0);

    let mut names: Vec<Vec<u8>> = Vec::new();
    let mut k: usize = 0;
    while k < tree.len()
        invariant
            k <= tree@.len(),
            names@.len() == k,
            t0 == tree_view(tree@),
            all_names == names_of(t0),
            forall|j: int| 0 <= j < k ==> names@[j]@ == all_names[j],
        decreases tree.len() - k,
    {
        names.push(tree[k].name.clone());
        k = k + 1;
    }

    let mut cur = tree;
    proof {
        assert(all_names.skip(0) =~= all_names);
    }
    let mut outcomes: Vec<UninstallOutcome> = Vec::new();
    let mut restored: usize = 0;
    let mut errors: usize = 0;
    let mut i: usize = 0;
    while i < names.len()
        invariant
            names@.len() == all_names.len(),
            forall|j: int| 0 <= j < names@.len() ==> names@[j]@ == all_names[j],
            i <= names@.len(),
            restored + errors <= i,
            uninstall_run_spec(
                UninstallState { files: t0, outcomes: Seq::empty(), restored: 0, errors: 0 },
                all_names,
            ) == uninstall_run_spec(
                UninstallState {
                    files: tree_view(cur@),
                    outcomes: outcomes@,
                    restored: restored as nat,
                    errors: errors as nat,
                },
                all_names.skip(i as int),
            ),
        decreases names.len() - i,
    {
        let ghost pre = UninstallState {
            files: tree_view(cur@),
            outcomes: outcomes@,
            restored: restored as nat,
            errors: errors as nat,
        };
        proof {
            assert(all_names.skip(i as int)[0] == all_names[i as int]);
            assert(all_names.skip(i as int).skip(1) =~= all_names.skip(i as int + 1));
        }
        let name = &names[i];
        let data_found = match tree_lookup(&cur, name) {
            Some(d) => Some(d.clone()),
            None => None,
        };
        match data_found {
            None => {
                proof {
                    assert(uninstall_entry_spec(pre, all_names[i as int]) == pre);
                }
            },
            Some(data) => {
                match classify_backup(name) {
                    BackupClass::NotBackup => {
                        proof {
                            assert(uninstall_entry_spec(pre, all_names[i as int]) == pre);
                        }
                    },
                    BackupClass::Ambiguous => {
                        errors = errors + 1;
                        outcomes.push(UninstallOutcome::AmbiguousBackupName);
                        proof {
                            let post = uninstall_entry_spec(pre, all_names[i as int]);
                            assert(post.files == pre.files && post.errors == pre.errors + 1
                                && post.restored == pre.restored
                                && post.outcomes == outcomes@);
                        }
                    },
                    BackupClass::RestoreTo { original } => {
                        let outcome = match tree_lookup(&cur, &original) {
                            Some(_) => UninstallOutcome::Restored,
                            None => UninstallOutcome::NoCurrentFileNotedRestoredAnyway,
                        };
                        let bak_name = name.clone();
                        tree_remove(&mut cur, &original);
                        tree_remove(&mut cur, &bak_name);
                        tree_store(&mut cur, original, data);
                        restored = restored + 1;
                        outcomes.push(outcome);
                        proof {
                            let post = uninstall_entry_spec(pre, all_names[i as int]);
                            assert(post.files == tree_view(cur@)
                                && post.restored == pre.restored + 1
                                && post.errors == pre.errors
                                && post.outcomes == outcomes@);
                        }
                    },
                }
            },
        }
        i = i + 1;
    }
    proof {
        assert(all_names.skip(names@.len() as int) =~= Seq::<Seq<u8>>::empty());
    }
    (cur, UninstallReport { outcomes, restored, errors })
}

} // verus!
