//! Binary diff between two byte buffers, and its application, through qbsdiff.
use vstd::prelude::*;

use crate::error::PipelineError;

verus! {

#[verifier::external_type_specification]
#[verifier::external_body]
pub struct ExIoError(std::io::Error);

/// The bzip2 level at which patches are compressed.
pub const PATCH_COMPRESSION_LEVEL: u32 = 9;

/// The largest source that the suffix-array search of the diff accepts.
pub const MAX_DIFF_SOURCE_LEN: usize = 0x7fff_ffff;

/// The patch that qbsdiff's `Bsdiff` writes for `old` and `new` at bzip2 level `level`.
pub uninterp spec fn bsdiff_patch(old: Seq<u8>, new: Seq<u8>, level: u32) -> Seq<u8>;

/// What qbsdiff's `Bspatch` produces from `old` and `patch`; `None` when it fails.
pub uninterp spec fn bspatch_output(old: Seq<u8>, patch: Seq<u8>) -> Option<Seq<u8>>;

/// Relies on qbsdiff::Bsdiff::compare (default search settings, given bzip2 level): the
/// patch is a function of the two inputs and the level, and qbsdiff's Bspatch applied to
/// `old` with it rebuilds `new` exactly. Its header is the bsdiff 4.x magic followed by the
/// true sizes of the blocks that follow it. `compare` fails only when its writer fails, and
/// writing to a vector in memory does not.
#[verifier::external_body]
fn bsdiff_compare(old: &[u8], new: &[u8], level: u32) -> (r: Result<Vec<u8>, std::io::Error>)
    requires
        old@.len() <= MAX_DIFF_SOURCE_LEN,
        1 <= level <= 9,
    ensures
        r is Ok,
        r matches Ok(p) ==> p@ == bsdiff_patch(old@, new@, level) && patch_header_ok(p@)
            && bspatch_output(old@, p@) == Some(new@),
{
    let mut patch = Vec::new();
    qbsdiff::Bsdiff::new(old, new).compression_level(level).compare(
        std::io::Cursor::new(&mut patch),
    )?;
    Ok(patch)
}

/// The little-endian value of the eight bytes of `p` from `off`.
pub open spec fn le_u64(p: Seq<u8>, off: int) -> int {
    p[off] + p[off + 1] * 0x100 + p[off + 2] * 0x1_0000 + p[off + 3] * 0x100_0000 + p[off + 4]
        * 0x1_0000_0000 + p[off + 5] * 0x100_0000_0000 + p[off + 6] * 0x1_0000_0000_0000 + p[off
        + 7] * 0x100_0000_0000_0000
}

/// A header size field as qbsdiff reads it: a sign-magnitude integer taken as `u64`, so a
/// negative size stands for `2^64` minus its magnitude.
pub open spec fn header_size(p: Seq<u8>, off: int) -> int {
    let x = le_u64(p, off);
    if x <= 0x8000_0000_0000_0000 {
        x
    } else {
        0x1_0000_0000_0000_0000 - (x - 0x8000_0000_0000_0000)
    }
}

/// The patch starts with the bsdiff 4.x magic, and the control and delta blocks that its
/// header declares fit in it.
pub open spec fn patch_header_ok(p: Seq<u8>) -> bool {
    &&& p.len() >= 32
    &&& p[0] == 66 && p[1] == 83 && p[2] == 68 && p[3] == 73
    &&& p[4] == 70 && p[5] == 70 && p[6] == 52 && p[7] == 48
    &&& 32 + header_size(p, 8) + header_size(p, 16) <= p.len()
}

/// Relies on qbsdiff::Bspatch::new and Bspatch::apply: parses the patch and writes the
/// target into memory; the outcome depends on the two inputs alone. A header whose blocks
/// do not fit would make `Bspatch::new` panic, hence the `requires`.
#[verifier::external_body]
fn bspatch_apply(old: &[u8], patch: &[u8]) -> (r: Result<Vec<u8>, std::io::Error>)
    requires
        patch_header_ok(patch@),
    ensures
        r matches Ok(t) ==> bspatch_output(old@, patch@) == Some(t@),
        r is Err ==> bspatch_output(old@, patch@) is None,
{
    let patcher = qbsdiff::Bspatch::new(patch)?;
    let mut target = Vec::new();
    patcher.apply(old, std::io::Cursor::new(&mut target))?;
    Ok(target)
}

/// The value of a header size field, as `patch_header_ok` reads it.
fn read_header_size(p: &Vec<u8>, off: usize) -> (r: u128)
    requires
        off + 8 <= p@.len(),
    ensures
        r == header_size(p@, off as int),
{
    let n = p.len();
    assert(off + 8 <= n);
    let b0 = p[off] as u64;
    let b1 = p[off + 1] as u64;
    let b2 = p[off + 2] as u64;
    let b3 = p[off + 3] as u64;
    let b4 = p[off + 4] as u64;
    let b5 = p[off + 5] as u64;
    let b6 = p[off + 6] as u64;
    let b7 = p[off + 7] as u64;
    assert(b0 < 256 && b1 < 256 && b2 < 256 && b3 < 256 && b4 < 256 && b5 < 256 && b6 < 256
        && b7 < 256);
    let x: u64 = b0 + b1 * 0x100 + b2 * 0x1_0000 + b3 * 0x100_0000 + b4 * 0x1_0000_0000 + b5
        * 0x100_0000_0000 + b6 * 0x1_0000_0000_0000 + b7 * 0x100_0000_0000_0000;
    if x <= 0x8000_0000_0000_0000 {
        x as u128
    } else {
        0x1_0000_0000_0000_0000u128 - (x as u128 - 0x8000_0000_0000_0000u128)
    }
}

/// Whether `patch` has a bsdiff 4.x header whose blocks fit in it.
pub fn check_patch_header(patch: &Vec<u8>) -> (r: bool)
    ensures
        r == patch_header_ok(patch@),
{
    if patch.len() < 32 {
        return false;
    }
    if !(patch[0] == 66 && patch[1] == 83 && patch[2] == 68 && patch[3] == 73 && patch[4] == 70
        && patch[5] == 70 && patch[6] == 52 && patch[7] == 48) {
        return false;
    }
    let csize = read_header_size(patch, 8);
    let dsize = read_header_size(patch, 16);
    32 + csize + dsize <= patch.len() as u128
}

/// What applying `patch` to `old` gives: `None` for a patch whose header is invalid, else
/// what qbsdiff's `Bspatch` produces.
pub open spec fn patched(old: Seq<u8>, patch: Seq<u8>) -> Option<Seq<u8>> {
    if patch_header_ok(patch) {
        bspatch_output(old, patch)
    } else {
        None
    }
}

/// `patch` is the library's patch from `old` to `new`.
pub open spec fn is_patch_for(old: Seq<u8>, new: Seq<u8>, patch: Seq<u8>) -> bool {
    &&& patch == bsdiff_patch(old, new, PATCH_COMPRESSION_LEVEL)
    &&& patched(old, patch) == Some(new)
}

/// Computes the compressed patch that turns `old` into `new`.
pub fn diff_bytes(old: &Vec<u8>, new: &Vec<u8>) -> (r: Result<Vec<u8>, PipelineError>)
    ensures
        r matches Ok(p) ==> is_patch_for(old@, new@, p@),
        old@.len() <= MAX_DIFF_SOURCE_LEN ==> (r matches Ok(p) && is_patch_for(old@, new@, p@)),
        old@.len() > MAX_DIFF_SOURCE_LEN ==> r == Err::<Vec<u8>, PipelineError>(
            PipelineError::DiffFailed,
        ),
        r matches Err(e) ==> e == PipelineError::DiffFailed,
{
    if old.len() > MAX_DIFF_SOURCE_LEN {
        return Err(PipelineError::DiffFailed);
    }
    match bsdiff_compare(old.as_slice(), new.as_slice(), PATCH_COMPRESSION_LEVEL) {
        Ok(p) => Ok(p),
        Err(_) => Err(PipelineError::DiffFailed),
    }
}

/// Applies `patch` to `old`; `CorruptPatch` exactly when the patch cannot be applied, a
/// header whose blocks overrun the patch included.
pub fn apply_patch(old: &Vec<u8>, patch: &Vec<u8>) -> (r: Result<Vec<u8>, PipelineError>)
    ensures
        r matches Ok(t) ==> patched(old@, patch@) == Some(t@),
        r is Err <==> patched(old@, patch@) is None,
        !patch_header_ok(patch@) ==> r == Err::<Vec<u8>, PipelineError>(PipelineError::CorruptPatch),
        r matches Err(e) ==> e == PipelineError::CorruptPatch,
{
    if !check_patch_header(patch) {
        return Err(PipelineError::CorruptPatch);
    }
    match bspatch_apply(old.as_slice(), patch.as_slice()) {
        Ok(t) => Ok(t),
        Err(_) => Err(PipelineError::CorruptPatch),
    }
}

/// Round trip: applying the patch made from `a` to `b` back onto `a` yields `b`, for all
/// byte sequences, empty ones included.
pub proof fn lemma_apply_inverts_diff(a: Seq<u8>, b: Seq<u8>, patch: Seq<u8>)
    requires
        is_patch_for(a, b, patch),
    ensures
        patched(a, patch) == Some(b),
{
}

/// Determinism: two patches made from the same inputs are byte-identical (`diff_bytes`
/// makes one whenever the source is within `MAX_DIFF_SOURCE_LEN`).
pub proof fn lemma_diff_deterministic(a: Seq<u8>, b: Seq<u8>, p1: Seq<u8>, p2: Seq<u8>)
    requires
        is_patch_for(a, b, p1),
        is_patch_for(a, b, p2),
    ensures
        p1 == p2,
{
}

} // verus!
