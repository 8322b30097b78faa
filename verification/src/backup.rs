//! Reversible file mutation: before a file is overwritten, its content
//! is copied to the backup name, and restoring copies the backup back
//! over the target. The patch-application flow backs up by copy, so the
//! original stays readable at its own path while the delta is applied.

use vstd::prelude::*;
use crate::paths::{backup_name_spec, backup_name_for};
use crate::tree::{FileEntry, TreeView, tree_view, lookup_spec, store_spec, tree_lookup, tree_store, lemma_lookup_store};

verus! {

/// What a copy-based backup does to the tree: the target's content is
/// written under the backup name; a missing target changes nothing.
pub open spec fn backup_effect(t: TreeView, target: Seq<u8>) -> TreeView {
    match lookup_spec(t, target) {
        Some(c) => store_spec(t, backup_name_spec(target), c),
        None => t,
    }
}

/// What a restore does to the tree: the backup's content is copied back
/// over the target; a missing backup changes nothing.
pub open spec fn restore_effect(t: TreeView, target: Seq<u8>) -> TreeView {
    match lookup_spec(t, backup_name_spec(target)) {
        Some(c) => store_spec(t, target, c),
        None => t,
    }
}

/// Copy `target`'s content to its backup name. Reports whether a backup
/// was made; only a missing target declines.
pub fn backup_file(t: &mut Vec<FileEntry>, target: &Vec<u8>) -> (r: bool)
    ensures
        tree_view(final(t)@) == backup_effect(tree_view(old(t)@), target@),
        r == (lookup_spec(tree_view(old(t)@), target@) is Some),
{
    let content = match tree_lookup(t, target) {
        Some(c) => Some(c.clone()),
        None => None,
    };
    match content {
        Some(c) => {
            let backup_name = backup_name_for(target);
            tree_store(t, backup_name, c);
            true
        },
        None => false,
    }
}

/// Copy the backup's content back over `target`. Reports whether a
/// backup existed to restore from.
pub fn restore_file(t: &mut Vec<FileEntry>, target: &Vec<u8>) -> (r: bool)
    ensures
        tree_view(final(t)@) == restore_effect(tree_view(old(t)@), target@),
        r == (lookup_spec(tree_view(old(t)@), backup_name_spec(target@)) is Some),
{
    let backup_name = backup_name_for(target);
    let content = match tree_lookup(t, &backup_name) {
        Some(c) => Some(c.clone()),
        None => None,
    };
    match content {
        Some(c) => {
            let target_name = target.clone();
            tree_store(t, target_name, c);
            true
        },
        None => false,
    }
}

/// A backup writes the target's content under the backup name and
/// leaves the target itself untouched.
pub proof fn lemma_backup_writes_backup(t: TreeView, target: Seq<u8>)
    requires
        lookup_spec(t, target) is Some,
    ensures
        lookup_spec(backup_effect(t, target), backup_name_spec(target)) == lookup_spec(t, target),
        lookup_spec(backup_effect(t, target), target) == lookup_spec(t, target),
{
    let c = lookup_spec(t, target)->Some_0;
    lemma_lookup_store(t, backup_name_spec(target), c, backup_name_spec(target));
    lemma_lookup_store(t, backup_name_spec(target), c, target);
}

/// The backup-then-restore round trip preserves content: if the tree
/// `mid` — however the target itself was mangled in between — still
/// holds the backup with the original content, restoring puts that
/// content back at the target path.
pub proof fn lemma_backup_restore_round_trip(t: TreeView, target: Seq<u8>, mid: TreeView)
    requires
        lookup_spec(t, target) is Some,
        lookup_spec(mid, backup_name_spec(target)) == lookup_spec(t, target),
    ensures
        lookup_spec(restore_effect(mid, target), target) == lookup_spec(t, target),
{
    let c = lookup_spec(t, target)->Some_0;
    lemma_lookup_store(mid, target, c, target);
}

/// In particular, restoring immediately after backing up leaves the
/// target with the content it had before the backup.
pub proof fn lemma_backup_then_restore(t: TreeView, target: Seq<u8>)
    requires
        lookup_spec(t, target) is Some,
    ensures
        lookup_spec(restore_effect(backup_effect(t, target), target), target)
            == lookup_spec(t, target),
{
    lemma_backup_writes_backup(t, target);
    lemma_backup_restore_round_trip(t, target, backup_effect(t, target));
}

} // verus!
