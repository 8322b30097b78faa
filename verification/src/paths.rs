//! The backup naming convention shared by the install and uninstall flows.
//!
//! A path is modeled as a byte string; `/` (byte 47) separates directories
//! and `.` (byte 46) introduces a file name's extension. A backup of a file
//! carries the name `<name>.<extension>.bak`; when the file name has no
//! extension, a lone `.` is inserted first, so the suffix appended is
//! `..bak`. The uninstall pass recognizes backups purely by the trailing
//! `.bak` and recovers the original name by stripping those four bytes.

use vstd::prelude::*;

verus! {

/// The four bytes of the literal suffix `.bak`.
pub open spec fn bak_suffix() -> Seq<u8> {
    seq![46u8, 98u8, 97u8, 107u8]
}

/// The index at which the file name of `p` starts: the position right
/// after the last `/`, or `0` when `p` holds no `/`.
pub open spec fn file_name_start(p: Seq<u8>) -> int
    decreases p.len(),
{
    if p.len() == 0 {
        0
    } else if p[p.len() - 1] == 47u8 {
        p.len() as int
    } else {
        file_name_start(p.drop_last())
    }
}

/// The file name of `p` has an extension: a `.` stands strictly after the
/// file name's first byte. A leading `.` (a hidden file) introduces no
/// extension; a trailing `.` introduces an empty one.
pub open spec fn has_extension(p: Seq<u8>) -> bool {
    exists|i: int| file_name_start(p) < i && i < p.len() && p[i] == 46u8
}

/// The name under which a backup of `p` is kept.
pub open spec fn backup_name_spec(p: Seq<u8>) -> Seq<u8> {
    if has_extension(p) {
        p + bak_suffix()
    } else {
        p + seq![46u8] + bak_suffix()
    }
}

/// `p` ends with the four bytes `.bak`.
pub open spec fn ends_with_bak(p: Seq<u8>) -> bool {
    &&& p.len() >= 4
    &&& p[p.len() - 4] == 46u8
    &&& p[p.len() - 3] == 98u8
    &&& p[p.len() - 2] == 97u8
    &&& p[p.len() - 1] == 107u8
}

/// The original name behind a backup name: the name less its last four
/// bytes.
pub open spec fn strip_bak(p: Seq<u8>) -> Seq<u8>
    recommends
        ends_with_bak(p),
{
    p.subrange(0, p.len() - 4)
}

/// A name that ends in `.bak` but whose file name is nothing more than
/// that suffix: stripping it would leave no file name at all, so no
/// restoration can be attempted.
pub open spec fn is_ambiguous_bak(p: Seq<u8>) -> bool {
    ends_with_bak(p) && file_name_start(p) >= p.len() - 4
}

/// A backup name from which an original name can be recovered.
pub open spec fn is_restorable_bak(p: Seq<u8>) -> bool {
    ends_with_bak(p) && file_name_start(p) < p.len() - 4
}

/// `p` ends with the four bytes `.bps`: it names a patch container, not
/// an ancillary file.
pub open spec fn ends_with_bps(p: Seq<u8>) -> bool {
    &&& p.len() >= 4
    &&& p[p.len() - 4] == 46u8
    &&& p[p.len() - 3] == 98u8
    &&& p[p.len() - 2] == 112u8
    &&& p[p.len() - 1] == 115u8
}

/// Whether a name ends in `.bps`; the ancillary-copy pass skips such
/// files, which only the patch-application pass consumes.
pub fn is_patch_container_name(p: &Vec<u8>) -> (r: bool)
    ensures
        r == ends_with_bps(p@),
{
    let n = p.len();
    n >= 4 && p[n - 4] == 46u8 && p[n - 3] == 98u8 && p[n - 2] == 112u8 && p[n - 1] == 115u8
}

/// How the uninstall pass reads one directory entry.
pub enum BackupClass {
    /// The name does not end in `.bak`: not a backup, leave it alone.
    NotBackup,
    /// The name is `.bak` alone: ambiguous, skipped and counted as an
    /// error.
    Ambiguous,
    /// A backup whose original name is `original`.
    RestoreTo { original: Vec<u8> },
}

/// Where the file name of `p` starts.
pub fn find_file_name_start(p: &Vec<u8>) -> (r: usize)
    ensures
        r == file_name_start(p@),
        r <= p.len(),
{
    let mut i: usize = p.len();
    assert(p@.subrange(0, p.len() as int) =~= p@);
    while i > 0
        invariant
            i <= p.len(),
            file_name_start(p@.subrange(0, i as int)) == file_name_start(p@),
            forall|j: int| i <= j < p.len() ==> p@[j] != 47u8,
        decreases i,
    {
        if p[i - 1] == 47u8 {
            assert(p@.subrange(0, i as int)[i - 1] == 47u8);
            return i;
        }
        assert(p@.subrange(0, i as int).drop_last() =~= p@.subrange(0, i as int - 1));
        i = i - 1;
    }
    assert(p@.subrange(0, 0) =~= Seq::<u8>::empty());
    0
}

/// Whether the file name of `p` carries an extension.
pub fn extension_present(p: &Vec<u8>) -> (r: bool)
    ensures
        r == has_extension(p@),
{
    let start = find_file_name_start(p);
    let mut i: usize = start;
    while i < p.len()
        invariant
            start == file_name_start(p@),
            start <= i <= p.len(),
            forall|j: int| start < j < i ==> p@[j] != 46u8,
        decreases p.len() - i,
    {
        if i > start && p[i] == 46u8 {
            assert(has_extension(p@));
            return true;
        }
        i = i + 1;
    }
    false
}

/// The backup name for `p`: `.bak` appended after the extension, with a
/// `.` inserted first when the file name has none.
pub fn backup_name_for(p: &Vec<u8>) -> (r: Vec<u8>)
    ensures
        r@ == backup_name_spec(p@),
{
    let mut r = p.clone();
    if !extension_present(p) {
        r.push(46u8);
    }
    r.push(46u8);
    r.push(98u8);
    r.push(97u8);
    r.push(107u8);
    proof {
        if has_extension(p@) {
            assert(r@ =~= p@ + bak_suffix());
        } else {
            assert(r@ =~= p@ + seq![46u8] + bak_suffix());
        }
    }
    r
}

/// Read one directory entry the way the uninstall pass does: not a
/// backup, an ambiguous bare `.bak`, or a backup of `original`.
pub fn classify_backup(p: &Vec<u8>) -> (c: BackupClass)
    ensures
        (c is NotBackup) <==> !ends_with_bak(p@),
        (c is Ambiguous) <==> is_ambiguous_bak(p@),
        (c is RestoreTo) <==> is_restorable_bak(p@),
        c matches BackupClass::RestoreTo { original } ==> original@ == strip_bak(p@),
{
    let n = p.len();
    if n < 4 || p[n - 4] != 46u8 || p[n - 3] != 98u8 || p[n - 2] != 97u8 || p[n - 1] != 107u8 {
        return BackupClass::NotBackup;
    }
    let start = find_file_name_start(p);
    if start >= n - 4 {
        return BackupClass::Ambiguous;
    }
    let mut original: Vec<u8> = Vec::new();
    let mut i: usize = 0;
    while i < n - 4
        invariant
            n == p@.len(),
            n >= 4,
            i <= n - 4,
            original@ =~= p@.subrange(0, i as int),
        decreases n - 4 - i,
    {
        original.push(p[i]);
        i = i + 1;
    }
    assert(original@ =~= strip_bak(p@));
    BackupClass::RestoreTo { original }
}

/// Appending bytes that hold no `/` to a path does not move the start of
/// its file name.
pub proof fn lemma_file_name_start_append(p: Seq<u8>, s: Seq<u8>)
    requires
        forall|i: int| 0 <= i < s.len() ==> s[i] != 47u8,
    ensures
        file_name_start(p + s) == file_name_start(p),
    decreases s.len(),
{
    if s.len() == 0 {
        assert(p + s =~= p);
    } else {
        assert((p + s).drop_last() =~= p + s.drop_last());
        lemma_file_name_start_append(p, s.drop_last());
    }
}

/// A backup name always ends in `.bak`, and it is never the name it was
/// derived from.
pub proof fn lemma_backup_name_is_bak(p: Seq<u8>)
    ensures
        ends_with_bak(backup_name_spec(p)),
        backup_name_spec(p) != p,
{
    assert(backup_name_spec(p).len() > p.len());
}

/// Stripping the `.bak` suffix from a backup name gives the original name
/// back, whenever the original file name carried an extension. (Without
/// one, stripping leaves the original name plus the inserted `.`.)
pub proof fn lemma_backup_strip_round_trip(p: Seq<u8>)
    ensures
        has_extension(p) ==> strip_bak(backup_name_spec(p)) == p,
        !has_extension(p) ==> strip_bak(backup_name_spec(p)) == p + seq![46u8],
{
    if has_extension(p) {
        assert(strip_bak(p + bak_suffix()) =~= p);
    } else {
        assert(strip_bak(p + seq![46u8] + bak_suffix()) =~= p + seq![46u8]);
    }
}

/// A backup name made from a path with a nonempty file name is never
/// ambiguous: the uninstall pass can always recover an original name from
/// what the install pass wrote.
pub proof fn lemma_backup_name_restorable(p: Seq<u8>)
    requires
        file_name_start(p) < p.len(),
    ensures
        is_restorable_bak(backup_name_spec(p)),
{
    let b = backup_name_spec(p);
    if has_extension(p) {
        lemma_file_name_start_append(p, bak_suffix());
    } else {
        lemma_file_name_start_append(p, seq![46u8] + bak_suffix());
        assert(p + seq![46u8] + bak_suffix() =~= p + (seq![46u8] + bak_suffix()));
    }
    assert(file_name_start(b) == file_name_start(p));
    assert(ends_with_bak(b));
}

} // verus!
