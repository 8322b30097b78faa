use patch_engine::checksum::checksum;
use patch_engine::container::{PatchContainer, PatchError};
use patch_engine::install::{
    outcome_is_fatal, run_install, select_platform, ApplicationOutcome, PatchPair, Platform,
};
use patch_engine::tree::{tree_lookup, FileEntry};

/// A minimal well-formed BPS container transforming `source` into
/// `target`: header, one whole-target TargetRead action, and the
/// three-checksum footer. Sizes must stay under 128 bytes so every
/// number fits one varint byte.
fn small_bps(source: &[u8], target: &[u8]) -> Vec<u8> {
    assert!(!source.is_empty() && !target.is_empty());
    assert!(source.len() < 128 && target.len() < 128);
    let mut p = vec![0x42u8, 0x50, 0x53, 0x31];
    p.push(0x80 | source.len() as u8);
    p.push(0x80 | target.len() as u8);
    p.push(0x80);
    p.push(0x80 | (((target.len() - 1) << 2) | 1) as u8);
    p.extend_from_slice(target);
    p.extend_from_slice(&checksum(&source.to_vec()).to_le_bytes());
    p.extend_from_slice(&checksum(&target.to_vec()).to_le_bytes());
    let patch_crc = checksum(&p);
    p.extend_from_slice(&patch_crc.to_le_bytes());
    p
}

fn entry(name: &[u8], data: &[u8]) -> FileEntry {
    FileEntry { name: name.to_vec(), data: data.to_vec() }
}

fn pair(patch: &[u8], source: &[u8]) -> PatchPair {
    PatchPair { patch_name: patch.to_vec(), source_name: source.to_vec() }
}

fn content<'a>(tree: &'a Vec<FileEntry>, name: &[u8]) -> Option<&'a Vec<u8>> {
    tree_lookup(tree, &name.to_vec())
}

#[test]
fn apply_transforms_source_bytes() {
    let c = PatchContainer::new(small_bps(b"AAAA", b"BBBB"));
    assert_eq!(c.verify_source(&b"AAAA".to_vec()), Ok(true));
    assert_eq!(c.apply(&b"AAAA".to_vec()), Ok(b"BBBB".to_vec()));
}

#[test]
fn apply_rejects_garbage_container() {
    let source = b"AAAA".to_vec();
    let mut garbage = b"nonsense".to_vec();
    garbage.extend_from_slice(&checksum(&source).to_le_bytes());
    garbage.extend_from_slice(&[0u8; 8]);
    let c = PatchContainer::new(garbage);
    assert_eq!(c.verify_source(&source), Ok(true));
    assert_eq!(c.apply(&source), Err(PatchError::DecodeFailure));
}

#[test]
fn install_applies_and_backs_up() {
    let tree = vec![
        entry(b"patch/a.bps", &small_bps(b"AAAA", b"BBBB")),
        entry(b"game/a.bin", b"AAAA"),
    ];
    let pairs = vec![pair(b"patch/a.bps", b"game/a.bin")];
    let (after, report) = run_install(tree, &pairs);
    assert!(report.succeeded());
    assert!(!report.aborted);
    assert_eq!(report.outcomes, vec![ApplicationOutcome::Applied]);
    assert_eq!(content(&after, b"game/a.bin"), Some(&b"BBBB".to_vec()));
    assert_eq!(content(&after, b"game/a.bin.bak"), Some(&b"AAAA".to_vec()));
}

#[test]
fn mismatch_aborts_run_before_second_pair() {
    let tree = vec![
        entry(b"patch/a.bps", &small_bps(b"AAAA", b"BBBB")),
        entry(b"patch/b.bps", &small_bps(b"CCCC", b"DDDD")),
        entry(b"game/a.bin", b"not what the patch expects"),
        entry(b"game/b.bin", b"CCCC"),
    ];
    let pairs = vec![pair(b"patch/a.bps", b"game/a.bin"), pair(b"patch/b.bps", b"game/b.bin")];
    let (after, report) = run_install(tree, &pairs);
    assert!(report.aborted);
    assert!(!report.succeeded());
    assert_eq!(report.outcomes, vec![ApplicationOutcome::VerificationFailed]);
    assert_eq!(content(&after, b"game/a.bin"), Some(&b"not what the patch expects".to_vec()));
    assert_eq!(content(&after, b"game/b.bin"), Some(&b"CCCC".to_vec()));
    assert_eq!(content(&after, b"game/a.bin.bak"), None);
    assert_eq!(content(&after, b"game/b.bin.bak"), None);
}

#[test]
fn missing_patch_skips_and_continues() {
    let tree = vec![
        entry(b"patch/b.bps", &small_bps(b"CCCC", b"DDDD")),
        entry(b"game/a.bin", b"AAAA"),
        entry(b"game/b.bin", b"CCCC"),
    ];
    let pairs = vec![pair(b"patch/a.bps", b"game/a.bin"), pair(b"patch/b.bps", b"game/b.bin")];
    let (after, report) = run_install(tree, &pairs);
    assert!(!report.aborted);
    assert_eq!(
        report.outcomes,
        vec![ApplicationOutcome::SkippedMissingPatch, ApplicationOutcome::Applied]
    );
    assert_eq!(content(&after, b"game/a.bin"), Some(&b"AAAA".to_vec()));
    assert_eq!(content(&after, b"game/b.bin"), Some(&b"DDDD".to_vec()));
}

#[test]
fn missing_source_skips_and_continues() {
    let tree = vec![entry(b"patch/a.bps", &small_bps(b"AAAA", b"BBBB"))];
    let pairs = vec![pair(b"patch/a.bps", b"game/a.bin")];
    let (after, report) = run_install(tree, &pairs);
    assert!(!report.aborted);
    assert_eq!(report.outcomes, vec![ApplicationOutcome::SkippedMissingSource]);
    assert_eq!(content(&after, b"game/a.bin"), None);
}

#[test]
fn malformed_container_aborts_run() {
    let tree = vec![
        entry(b"patch/a.bps", b"tiny"),
        entry(b"game/a.bin", b"AAAA"),
    ];
    let pairs = vec![pair(b"patch/a.bps", b"game/a.bin")];
    let (after, report) = run_install(tree, &pairs);
    assert!(report.aborted);
    assert_eq!(report.outcomes, vec![ApplicationOutcome::MalformedContainer]);
    assert_eq!(content(&after, b"game/a.bin"), Some(&b"AAAA".to_vec()));
}

#[test]
fn decode_failure_restores_source_and_aborts() {
    let source = b"AAAA".to_vec();
    let mut garbage = b"nonsense".to_vec();
    garbage.extend_from_slice(&checksum(&source).to_le_bytes());
    garbage.extend_from_slice(&[0u8; 8]);
    let tree = vec![entry(b"patch/a.bps", &garbage), entry(b"game/a.bin", b"AAAA")];
    let pairs = vec![pair(b"patch/a.bps", b"game/a.bin")];
    let (after, report) = run_install(tree, &pairs);
    assert!(report.aborted);
    assert_eq!(report.outcomes, vec![ApplicationOutcome::ApplyFailedRestored]);
    assert_eq!(content(&after, b"game/a.bin"), Some(&b"AAAA".to_vec()));
    assert_eq!(content(&after, b"game/a.bin.bak"), Some(&b"AAAA".to_vec()));
}

#[test]
fn later_pair_sees_earlier_pair_output() {
    let tree = vec![
        entry(b"patch/a.bps", &small_bps(b"AAAA", b"BBBB")),
        entry(b"patch/b.bps", &small_bps(b"BBBB", b"CCCC")),
        entry(b"game/a.bin", b"AAAA"),
    ];
    let pairs = vec![pair(b"patch/a.bps", b"game/a.bin"), pair(b"patch/b.bps", b"game/a.bin")];
    let (after, report) = run_install(tree, &pairs);
    assert!(!report.aborted);
    assert_eq!(
        report.outcomes,
        vec![ApplicationOutcome::Applied, ApplicationOutcome::Applied]
    );
    assert_eq!(content(&after, b"game/a.bin"), Some(&b"CCCC".to_vec()));
    assert_eq!(content(&after, b"game/a.bin.bak"), Some(&b"BBBB".to_vec()));
}

#[test]
fn fatal_outcomes_are_exactly_the_aborting_ones() {
    assert!(outcome_is_fatal(&ApplicationOutcome::MalformedContainer));
    assert!(outcome_is_fatal(&ApplicationOutcome::VerificationFailed));
    assert!(outcome_is_fatal(&ApplicationOutcome::ApplyFailedRestored));
    assert!(outcome_is_fatal(&ApplicationOutcome::ApplyFailedUnrestorable));
    assert!(!outcome_is_fatal(&ApplicationOutcome::Applied));
    assert!(!outcome_is_fatal(&ApplicationOutcome::SkippedMissingPatch));
    assert!(!outcome_is_fatal(&ApplicationOutcome::SkippedMissingSource));
}

#[test]
fn platform_follows_steam_api_presence() {
    assert_eq!(select_platform(true), Platform::Steam);
    assert_eq!(select_platform(false), Platform::Itch);
}
