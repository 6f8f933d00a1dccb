use bin_patch_gen::diff_engine::{apply_patch, check_patch_header, diff_bytes};
use bin_patch_gen::digest::{digest, verify_digest};
use bin_patch_gen::PipelineError;

fn round_trip(a: &[u8], b: &[u8]) {
    let a = a.to_vec();
    let b = b.to_vec();
    let p = diff_bytes(&a, &b).expect("diff");
    assert_eq!(apply_patch(&a, &p).expect("apply"), b);
}

#[test]
fn round_trip_small_buffers() {
    round_trip(b"hello world", b"hello brave new world");
}

#[test]
fn round_trip_empty_inputs() {
    round_trip(b"", b"");
    round_trip(b"", b"some content");
    round_trip(b"some content", b"");
}

#[test]
fn round_trip_larger_buffer() {
    let a: Vec<u8> = (0..20000u32).map(|i| (i * 7 % 251) as u8).collect();
    let mut b = a.clone();
    b[100] = 1;
    b.extend_from_slice(b"tail");
    round_trip(&a, &b);
}

#[test]
fn diff_is_deterministic() {
    let a = b"the original artifact bytes".to_vec();
    let b = b"the patched artifact bytes, longer".to_vec();
    assert_eq!(diff_bytes(&a, &b).unwrap(), diff_bytes(&a, &b).unwrap());
}

#[test]
fn patch_is_not_the_target() {
    let a = b"aaaa".to_vec();
    let b = b"bbbb".to_vec();
    let p = diff_bytes(&a, &b).unwrap();
    assert_ne!(p, b);
    assert!(p.starts_with(b"BSDIFF40"));
}

#[test]
fn garbage_patch_is_corrupt() {
    let old = b"abc".to_vec();
    assert_eq!(apply_patch(&old, &b"not a patch".to_vec()), Err(PipelineError::CorruptPatch));
    assert_eq!(apply_patch(&old, &Vec::new()), Err(PipelineError::CorruptPatch));
}

#[test]
fn digest_of_known_inputs() {
    assert_eq!(digest(&b"abc".to_vec()), "a9993e364706816aba3e25717850c26c9cd0d89d");
    assert_eq!(digest(&Vec::new()), "da39a3ee5e6b4b0d3255bfef95601890afd80709");
}

#[test]
fn digest_depends_on_bytes_only() {
    let a = b"same bytes in two files".to_vec();
    let b = a.clone();
    assert_eq!(digest(&a), digest(&b));
    assert_ne!(digest(&a), digest(&b"other bytes".to_vec()));
    assert_eq!(digest(&a).len(), 40);
}

#[test]
fn integrity_mismatch_is_reported() {
    let data = b"abc".to_vec();
    assert_eq!(verify_digest(&data, &"a9993e364706816aba3e25717850c26c9cd0d89d".to_string()), Ok(()));
    assert_eq!(
        verify_digest(&data, &"da39a3ee5e6b4b0d3255bfef95601890afd80709".to_string()),
        Err(PipelineError::IntegrityMismatch)
    );
}

fn header(csize: [u8; 8], dsize: [u8; 8], extra: usize) -> Vec<u8> {
    let mut p = b"BSDIFF40".to_vec();
    p.extend_from_slice(&csize);
    p.extend_from_slice(&dsize);
    p.extend_from_slice(&[0u8; 8]);
    p.extend(std::iter::repeat(0u8).take(extra));
    p
}

#[test]
fn overrunning_header_is_corrupt() {
    let old = b"abc".to_vec();
    let minus_one = [1, 0, 0, 0, 0, 0, 0, 0x80];
    let p = header(minus_one, [0; 8], 0);
    assert!(!check_patch_header(&p));
    assert_eq!(apply_patch(&old, &p), Err(PipelineError::CorruptPatch));
    let near_half = [0xff, 0xff, 0xff, 0xff, 0xff, 0xff, 0xff, 0x7f];
    let p = header(near_half, near_half, 4);
    assert_eq!(apply_patch(&old, &p), Err(PipelineError::CorruptPatch));
    let p = header([5, 0, 0, 0, 0, 0, 0, 0], [0; 8], 4);
    assert_eq!(apply_patch(&old, &p), Err(PipelineError::CorruptPatch));
}

#[test]
fn produced_patch_has_valid_header() {
    let p = diff_bytes(&b"one".to_vec(), &b"two".to_vec()).unwrap();
    assert!(check_patch_header(&p));
    let p = header([4, 0, 0, 0, 0, 0, 0, 0], [0; 8], 4);
    assert!(check_patch_header(&p));
}
