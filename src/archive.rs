//! Reading the entry list of a zip-format archive, and the questions asked of it.
use vstd::prelude::*;

use crate::error::PipelineError;
use crate::text::{path_components, same_path};

verus! {

#[verifier::external_type_specification]
#[verifier::external_body]
pub struct ExZipError(zip::result::ZipError);

/// One entry of an archive: its relative path when that path stays inside the extraction
/// directory (`None` for a path that would escape it), and whether it is a directory.
#[derive(Clone, Debug, PartialEq, Eq)]
pub struct ArchiveEntry {
    pub path: Option<String>,
    pub is_dir: bool,
}

pub open spec fn opt_view(p: Option<String>) -> Option<Seq<char>> {
    match p {
        Some(s) => Some(s@),
        None => None,
    }
}

impl View for ArchiveEntry {
    type V = (Option<Seq<char>>, bool);

    open spec fn view(&self) -> Self::V {
        (opt_view(self.path), self.is_dir)
    }
}

pub open spec fn entries_view(v: Seq<ArchiveEntry>) -> Seq<(Option<Seq<char>>, bool)> {
    v.map_values(|e: ArchiveEntry| e@)
}

/// The entries that the zip crate lists for the archive held in `bytes`, in the order of
/// its central directory; `None` when it cannot read them.
pub uninterp spec fn zip_entries(bytes: Seq<u8>) -> Option<Seq<(Option<Seq<char>>, bool)>>;

/// Relies on zip::ZipArchive::new, ZipArchive::by_index_raw, ZipFile::enclosed_name and
/// ZipFile::is_dir: lists each entry of the archive, its path as `enclosed_name` gives it,
/// without setting up decompression (so an entry's compression method does not matter).
#[verifier::external_body]
fn zip_list(bytes: &[u8]) -> (r: Result<Vec<ArchiveEntry>, zip::result::ZipError>)
    ensures
        r matches Ok(v) ==> zip_entries(bytes@) == Some(entries_view(v@)),
        r is Err ==> zip_entries(bytes@) is None,
{
    let mut archive = zip::ZipArchive::new(std::io::Cursor::new(bytes))?;
    let mut entries = Vec::new();
    for i in 0..archive.len() {
        let file = archive.by_index_raw(i)?;
        let path = match file.enclosed_name() {
            Some(p) => p.to_str().map(String::from),
            None => None,
        };
        entries.push(ArchiveEntry { path, is_dir: file.is_dir() });
    }
    Ok(entries)
}

/// Opens the archive held in `bytes` and lists its entries; `NotAnArchive` when its
/// central directory, or the local header of one of the entries it lists, cannot be read.
pub fn read_entries(bytes: &Vec<u8>) -> (r: Result<Vec<ArchiveEntry>, PipelineError>)
    ensures
        r is Ok <==> zip_entries(bytes@) is Some,
        r matches Ok(v) ==> zip_entries(bytes@) == Some(entries_view(v@)),
        r matches Err(e) ==> e == PipelineError::NotAnArchive,
{
    match zip_list(bytes.as_slice()) {
        Ok(v) => Ok(v),
        Err(_) => Err(PipelineError::NotAnArchive),
    }
}

/// Entry `e` is a directory whose normalized path is the normalized `dir`.
pub open spec fn is_directory_entry(e: ArchiveEntry, dir: Seq<char>) -> bool {
    &&& e.is_dir
    &&& e.path is Some
    &&& path_components(e.path->0@) == path_components(dir)
}

pub open spec fn has_directory(entries: Seq<ArchiveEntry>, dir: Seq<char>) -> bool {
    exists|k: int| 0 <= k < entries.len() && is_directory_entry(#[trigger] entries[k], dir)
}

/// Whether the archive has a directory entry at `dir`.
pub fn contains_directory(entries: &Vec<ArchiveEntry>, dir: &str) -> (r: bool)
    ensures
        r == has_directory(entries@, dir@),
{
    let mut i: usize = 0;
    while i < entries.len()
        invariant
            i <= entries@.len(),
            forall|j: int| 0 <= j < i ==> !is_directory_entry(#[trigger] entries@[j], dir@),
        decreases entries.len() - i,
    {
        let e = &entries[i];
        if e.is_dir {
            match &e.path {
                Some(p) => {
                    if same_path(p.as_str(), dir) {
                        assert(is_directory_entry(entries@[i as int], dir@));
                        return true;
                    }
                },
                None => {},
            }
        }
        i = i + 1;
    }
    false
}

/// Entry `e` is written out on extraction: a file whose path stays inside the target.
pub open spec fn is_extracted(e: ArchiveEntry) -> bool {
    !e.is_dir && e.path is Some
}

/// The indices of the entries among the first `n` that extraction writes, in order.
pub open spec fn extracted_upto(entries: Seq<ArchiveEntry>, n: int) -> Seq<usize>
    decreases n,
{
    if n <= 0 {
        Seq::empty()
    } else if is_extracted(entries[n - 1]) {
        extracted_upto(entries, n - 1).push((n - 1) as usize)
    } else {
        extracted_upto(entries, n - 1)
    }
}

/// The entries to write when extracting the archive: every file entry, in archive order;
/// directories are created as the files need them, and entries whose path would escape the
/// destination are left out.
pub fn extraction_plan(entries: &Vec<ArchiveEntry>) -> (r: Vec<usize>)
    ensures
        r@ == extracted_upto(entries@, entries@.len() as int),
{
    let mut out: Vec<usize> = Vec::new();
    let mut i: usize = 0;
    while i < entries.len()
        invariant
            i <= entries@.len(),
            out@ == extracted_upto(entries@, i as int),
        decreases entries.len() - i,
    {
        if !entries[i].is_dir && entries[i].path.is_some() {
            out.push(i);
        }
        i = i + 1;
    }
    out
}

} // verus!
