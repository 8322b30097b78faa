//! The patch-application engine: for an ordered list of (patch path,
//! source path) pairs, verify the source's checksum against the
//! container, back the source up, apply the delta in place, and restore
//! from the backup when the apply step fails.
//!
//! Pairs are processed strictly in list order; a missing patch or source
//! skips that pair, while a malformed container, a checksum mismatch or
//! a failed apply aborts the whole run, and later pairs are never
//! attempted. The run is specified and verified over the in-memory tree
//! model.

use vstd::prelude::*;
use crate::container::{container_well_formed, verification_of, bps_apply, verify_source, apply_delta};
use crate::paths::{backup_name_spec, backup_name_for};
use crate::tree::{FileEntry, TreeView, tree_view, lookup_spec, store_spec, tree_lookup, tree_store};

verus! {

/// How one (patch, source) pair fared.
#[derive(Clone, Copy, Debug, PartialEq, Eq, Structural)]
pub enum ApplicationOutcome {
    /// The delta was applied and the new bytes stand at the source path.
    Applied,
    /// The patch file is absent; the pair was skipped and the run went
    /// on.
    SkippedMissingPatch,
    /// The source file is absent; the pair was skipped and the run went
    /// on.
    SkippedMissingSource,
    /// The container is too short to hold its checksum footer; the run
    /// aborted before touching anything.
    MalformedContainer,
    /// The source's checksum disagrees with the container's expected
    /// value; the run aborted before touching anything.
    VerificationFailed,
    /// The apply step failed and the source was restored from its
    /// backup; the run aborted.
    ApplyFailedRestored,
    /// The apply step failed and the backup could not be copied back;
    /// the run aborted with the file in an unknown state.
    ApplyFailedUnrestorable,
}

/// The outcomes that end the whole run.
pub open spec fn outcome_fatal_spec(o: ApplicationOutcome) -> bool {
    ||| o is MalformedContainer
    ||| o is VerificationFailed
    ||| o is ApplyFailedRestored
    ||| o is ApplyFailedUnrestorable
}

/// Whether an outcome ends the whole run: anything past a skip is
/// abort-on-failure, because applying further patches over a suspect
/// tree would corrupt it silently.
pub fn outcome_is_fatal(o: &ApplicationOutcome) -> (r: bool)
    ensures
        r == outcome_fatal_spec(*o),
{
    match o {
        ApplicationOutcome::MalformedContainer => true,
        ApplicationOutcome::VerificationFailed => true,
        ApplicationOutcome::ApplyFailedRestored => true,
        ApplicationOutcome::ApplyFailedUnrestorable => true,
        ApplicationOutcome::Applied => false,
        ApplicationOutcome::SkippedMissingPatch => false,
        ApplicationOutcome::SkippedMissingSource => false,
    }
}

/// Which platform's patch set applies to a game directory.
#[derive(Clone, Copy, Debug, PartialEq, Eq, Structural)]
pub enum Platform {
    Steam,
    Itch,
}

/// The platform heuristic: the Steam patch set when the Steam API
/// library stands in the game directory, the Itch one otherwise.
pub fn select_platform(steam_api_present: bool) -> (p: Platform)
    ensures
        (p is Steam) <==> steam_api_present,
{
    if steam_api_present {
        Platform::Steam
    } else {
        Platform::Itch
    }
}

/// One pair of the manifest: where the patch container lies and which
/// file it transforms.
pub struct PatchPair {
    pub patch_name: Vec<u8>,
    pub source_name: Vec<u8>,
}

/// The pairs as the specifications see them.
pub open spec fn pairs_view(s: Seq<PatchPair>) -> Seq<(Seq<u8>, Seq<u8>)> {
    s.map_values(|p: PatchPair| (p.patch_name@, p.source_name@))
}

/// A tree together with what one pair did to it.
pub struct InstallStep {
    pub files: TreeView,
    pub outcome: ApplicationOutcome,
}

/// What processing one pair does to the tree: skip when patch or source
/// is absent; stop on a malformed container or a checksum mismatch
/// without touching anything; otherwise write the copy-based backup,
/// then the delta's output over the source path, or restore the source
/// from the backup when the delta cannot be decoded.
pub open spec fn install_pair_spec(t: TreeView, patch_name: Seq<u8>, source_name: Seq<u8>) -> InstallStep {
    match lookup_spec(t, patch_name) {
        None => InstallStep { files: t, outcome: ApplicationOutcome::SkippedMissingPatch },
        Some(patch) => match lookup_spec(t, source_name) {
            None => InstallStep { files: t, outcome: ApplicationOutcome::SkippedMissingSource },
            Some(source) => {
                if !container_well_formed(patch) {
                    InstallStep { files: t, outcome: ApplicationOutcome::MalformedContainer }
                } else if !verification_of(source, patch) {
                    InstallStep { files: t, outcome: ApplicationOutcome::VerificationFailed }
                } else {
                    let backed = store_spec(t, backup_name_spec(source_name), source);
                    match bps_apply(patch, source) {
                        Some(out) => InstallStep {
                            files: store_spec(backed, source_name, out),
                            outcome: ApplicationOutcome::Applied,
                        },
                        None => InstallStep {
                            files: store_spec(backed, source_name, source),
                            outcome: ApplicationOutcome::ApplyFailedRestored,
                        },
                    }
                }
            },
        },
    }
}

/// A whole run: its final tree, the outcome of every pair that was
/// attempted, and whether it aborted.
pub struct InstallRun {
    pub files: TreeView,
    pub outcomes: Seq<ApplicationOutcome>,
    pub aborted: bool,
}

/// A whole run over the manifest's pairs, in list order, stopping at
/// the first fatal outcome.
pub open spec fn install_run_spec(t: TreeView, pairs: Seq<(Seq<u8>, Seq<u8>)>) -> InstallRun
    decreases pairs.len(),
{
    if pairs.len() == 0 {
        InstallRun { files: t, outcomes: Seq::empty(), aborted: false }
    } else {
        let st = install_pair_spec(t, pairs[0].0, pairs[0].1);
        if outcome_fatal_spec(st.outcome) {
            InstallRun { files: st.files, outcomes: seq![st.outcome], aborted: true }
        } else {
            let rest = install_run_spec(st.files, pairs.skip(1));
            InstallRun {
                files: rest.files,
                outcomes: seq![st.outcome] + rest.outcomes,
                aborted: rest.aborted,
            }
        }
    }
}

/// A fatal pair ends the run: at most the pairs up to and including the
/// first fatal one are ever attempted, every earlier outcome is
/// non-fatal, and a run that did not abort attempted every pair.
pub proof fn lemma_run_stops_at_first_fatal(t: TreeView, pairs: Seq<(Seq<u8>, Seq<u8>)>)
    ensures
        ({
            let r = install_run_spec(t, pairs);
            &&& r.outcomes.len() <= pairs.len()
            &&& forall|i: int|
                0 <= i < r.outcomes.len() - 1 ==> !outcome_fatal_spec(#[trigger] r.outcomes[i])
            &&& (r.aborted <==> r.outcomes.len() > 0 && outcome_fatal_spec(
                r.outcomes[r.outcomes.len() - 1],
            ))
            &&& (!r.aborted ==> r.outcomes.len() == pairs.len())
        }),
    decreases pairs.len(),
{
    if pairs.len() > 0 {
        let st = install_pair_spec(t, pairs[0].0, pairs[0].1);
        if !outcome_fatal_spec(st.outcome) {
            lemma_run_stops_at_first_fatal(st.files, pairs.skip(1));
        }
    }
}

/// What a run reports: per-pair outcomes in order, and whether it
/// aborted.
pub struct InstallReport {
    pub outcomes: Vec<ApplicationOutcome>,
    pub aborted: bool,
}

impl InstallReport {
    /// The run succeeded when it was not aborted; skipped pairs are
    /// reported in the outcomes but do not fail the run.
    pub fn succeeded(&self) -> (r: bool)
        ensures
            r == !self.aborted,
    {
        !self.aborted
    }
}

/// Run the patch-application engine over an in-memory tree: process the
/// pairs strictly in list order, each through verify, then backup, then
/// apply, stopping at the first fatal outcome.
pub fn run_install(tree: Vec<FileEntry>, pairs: &Vec<PatchPair>) -> (r: (Vec<FileEntry>, InstallReport))
    ensures
        ({
            let end = install_run_spec(tree_view(tree@), pairs_view(pairs@));
            &&& tree_view(r.0@) == end.files
            &&& r.1.outcomes@ == end.outcomes
            &&& r.1.aborted == end.aborted
        }),
{
    let ghost t0 = tree_view(tree@);
    let ghost all_pairs = pairs_view(pairs@);
    let mut cur = tree;
    let mut outcomes: Vec<ApplicationOutcome> = Vec::new();
    let mut aborted = false;
    let mut i: usize = 0;
    proof {
        assert(all_pairs.skip(0) =~= all_pairs);
    }
    while i < pairs.len() && !aborted
        invariant
            i <= pairs@.len(),
            all_pairs == pairs_view(pairs@),
            ({
                let full = install_run_spec(t0, all_pairs);
                if aborted {
                    full == InstallRun {
                        files: tree_view(cur@),
                        outcomes: outcomes@,
                        aborted: true,
                    }
                } else {
                    ({
                        let rest = install_run_spec(tree_view(cur@), all_pairs.skip(i as int));
                        full == InstallRun {
                            files: rest.files,
                            outcomes: outcomes@ + rest.outcomes,
                            aborted: rest.aborted,
                        }
                    })
                }
            }),
        decreases pairs@.len() - i,
    {
        let ghost pre = tree_view(cur@);
        proof {
            assert(all_pairs.skip(i as int)[0] == all_pairs[i as int]);
            assert(all_pairs.skip(i as int).skip(1) =~= all_pairs.skip(i as int + 1));
        }
        let ghost st = install_pair_spec(pre, all_pairs[i as int].0, all_pairs[i as int].1);

        let patch_found = match tree_lookup(&cur, &pairs[i].patch_name) {
            Some(d) => Some(d.clone()),
            None => None,
        };
        let outcome = match patch_found {
            None => ApplicationOutcome::SkippedMissingPatch,
            Some(patch) => {
                let source_found = match tree_lookup(&cur, &pairs[i].source_name) {
                    Some(d) => Some(d.clone()),
                    None => None,
                };
                match source_found {
                    None => ApplicationOutcome::SkippedMissingSource,
                    Some(source) => {
                        match verify_source(&source, &patch) {
                            Err(_) => ApplicationOutcome::MalformedContainer,
                            Ok(false) => ApplicationOutcome::VerificationFailed,
                            Ok(true) => {
                                let backup_name = backup_name_for(&pairs[i].source_name);
                                tree_store(&mut cur, backup_name, source.clone());
                                match apply_delta(&patch, &source) {
                                    Ok(out) => {
                                        let source_name = pairs[i].source_name.clone();
                                        tree_store(&mut cur, source_name, out);
                                        ApplicationOutcome::Applied
                                    },
                                    Err(_) => {
                                        let source_name = pairs[i].source_name.clone();
                                        tree_store(&mut cur, source_name, source);
                                        ApplicationOutcome::ApplyFailedRestored
                                    },
                                }
                            },
                        }
                    },
                }
            },
        };
        proof {
            assert(st.files == tree_view(cur@) && st.outcome == outcome);
        }
        let ghost done = outcomes@;
        outcomes.push(outcome);
        if outcome_is_fatal(&outcome) {
            aborted = true;
        }
        i = i + 1;
        proof {
            assert(outcomes@ =~= done + seq![outcome]);
            if !aborted {
                let rest = install_run_spec(tree_view(cur@), all_pairs.skip(i as int));
                assert(done + (seq![outcome] + rest.outcomes) =~= outcomes@ + rest.outcomes);
            }
        }
    }
    proof {
        if !aborted {
            assert(all_pairs.skip(pairs@.len() as int) =~= Seq::<(Seq<u8>, Seq<u8>)>::empty());
            assert(outcomes@ + Seq::<ApplicationOutcome>::empty() =~= outcomes@);
        }
    }
    (cur, InstallReport { outcomes, aborted })
}

} // verus!
