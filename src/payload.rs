//! Finding the payload of an archive: the archive itself, or the artifact that a
//! multi-release archive nests under its versions directory. The nested payload is looked
//! up by two strategies in order: the archive's manifest list, then the file names.
use vstd::prelude::*;

use crate::archive::{contains_directory, has_directory, ArchiveEntry};
use crate::error::PipelineError;
use crate::text::{lemma_split_after_first, lemma_split_without_sep, has_prefix, is_safe_relative, last_component, safe_relative, split_field, split_on};
use crate::JAR_VERSIONS_PATH;

verus! {

#[verifier::external_type_specification]
#[verifier::external_body]
pub struct ExRegexError(regex::Error);

/// Whether `pattern` finds a match anywhere in `text`; `None` when the pattern does not
/// compile.
pub uninterp spec fn regex_search(pattern: Seq<char>, text: Seq<char>) -> Option<bool>;

/// Relies on regex::Regex::new and Regex::is_match: compiles `pattern` and reports whether
/// it matches somewhere in `text`.
#[verifier::external_body]
pub(crate) fn regex_is_match(pattern: &str, text: &str) -> (r: Result<bool, regex::Error>)
    ensures
        r matches Ok(b) ==> regex_search(pattern@, text@) == Some(b),
        r is Err ==> regex_search(pattern@, text@) is None,
{
    Ok(regex::Regex::new(pattern)?.is_match(text))
}

/// No name before index `k` is matched by `pattern`, and the pattern compiles on each.
pub open spec fn misses_before(pattern: Seq<char>, names: Seq<String>, k: int) -> bool {
    forall|j: int| 0 <= j < k ==> regex_search(pattern, (#[trigger] names[j])@) == Some(false)
}

/// The index of the first of `names` in which `pattern` finds a match. `FileNotFound` when
/// none does; `InvalidPattern` when the pattern fails to compile before a match is found.
pub fn find_file(pattern: &str, names: &Vec<String>) -> (r: Result<usize, PipelineError>)
    ensures
        r matches Ok(k) ==> k < names@.len() && regex_search(pattern@, names@[k as int]@) == Some(
            true,
        ) && misses_before(pattern@, names@, k as int),
        r == Err::<usize, PipelineError>(PipelineError::FileNotFound) <==> misses_before(
            pattern@,
            names@,
            names@.len() as int,
        ),
        r == Err::<usize, PipelineError>(PipelineError::InvalidPattern) ==> exists|k: int|
            0 <= k < names@.len() && regex_search(pattern@, (#[trigger] names@[k])@) is None
                && misses_before(pattern@, names@, k),
        r matches Err(e) ==> e == PipelineError::FileNotFound || e
            == PipelineError::InvalidPattern,
{
    let mut i: usize = 0;
    while i < names.len()
        invariant
            i <= names@.len(),
            misses_before(pattern@, names@, i as int),
        decreases names.len() - i,
    {
        match regex_is_match(pattern, names[i].as_str()) {
            Ok(true) => {
                return Ok(i);
            },
            Ok(false) => {},
            Err(_) => {
                assert(regex_search(pattern@, names@[i as int]@) is None);
                return Err(PipelineError::InvalidPattern);
            },
        }
        i = i + 1;
    }
    Err(PipelineError::FileNotFound)
}

/// The payload path that a manifest list names: the third tab-separated field of its first
/// line, relative to the versions directory; `None` when that field is missing or is not a
/// relative path that stays inside that directory.
pub open spec fn manifest_entry(manifest: Seq<char>) -> Option<Seq<char>> {
    let fields = split_on(split_on(manifest, '\n')[0], '\t');
    if fields.len() >= 3 && is_safe_relative(fields[2]) {
        Some(fields[2])
    } else {
        None
    }
}

/// Reads the payload path out of a manifest list; the first record wins.
pub fn manifest_payload(manifest: &str) -> (r: Option<String>)
    ensures
        r is Some <==> manifest_entry(manifest@) is Some,
        r matches Some(p) ==> manifest_entry(manifest@) == Some(p@),
{
    let n = manifest.unicode_len();
    proof {
        crate::text::lemma_split_nonempty(manifest@, '\n');
        assert(manifest@.take(n as int) =~= manifest@);
    }
    let (a, b) = match split_field(manifest, n, '\n', 0) {
        Some(bounds) => bounds,
        None => {
            return None;
        },
    };
    let line = manifest.substring_char(a, b);
    let m = line.unicode_len();
    assert(line@.take(m as int) =~= line@);
    match split_field(line, m, '\t', 2) {
        Some((c, d)) => {
            let field = line.substring_char(c, d);
            if !safe_relative(field) {
                return None;
            }
            Some(String::from_str(field))
        },
        None => None,
    }
}

/// A manifest list whose first line is `hash TAB id TAB relpath` names `relpath`, whatever
/// lines follow: the first record wins, without its line terminator.
pub proof fn lemma_manifest_first_record(
    hash: Seq<char>,
    id: Seq<char>,
    rel: Seq<char>,
    rest: Seq<char>,
)
    requires
        forall|i: int| 0 <= i < hash.len() ==> hash[i] != '\t' && hash[i] != '\n',
        forall|i: int| 0 <= i < id.len() ==> id[i] != '\t' && id[i] != '\n',
        forall|i: int| 0 <= i < rel.len() ==> rel[i] != '\t' && rel[i] != '\n',
        is_safe_relative(rel),
    ensures
        manifest_entry(hash + seq!['\t'] + id + seq!['\t'] + rel + seq!['\n'] + rest) == Some(
            rel,
        ),
{
    let tail = id + seq!['\t'] + rel;
    let line = hash + seq!['\t'] + tail;
    assert(hash + seq!['\t'] + id + seq!['\t'] + rel + seq!['\n'] + rest =~= line + seq!['\n']
        + rest);
    assert forall|i: int| 0 <= i < line.len() implies line[i] != '\n' by {
        if i < hash.len() {
            assert(line[i] == hash[i]);
        } else if i == hash.len() {
            assert(line[i] == '\t');
        } else if i < hash.len() + 1 + id.len() {
            assert(line[i] == id[i - hash.len() - 1]);
        } else if i == hash.len() + 1 + id.len() {
            assert(line[i] == '\t');
        } else {
            assert(line[i] == rel[i - hash.len() - 2 - id.len()]);
        }
    }
    lemma_split_after_first(line, rest, '\n');
    assert((seq![line] + split_on(rest, '\n'))[0] == line);
    lemma_split_after_first(hash, tail, '\t');
    lemma_split_after_first(id, rel, '\t');
    lemma_split_without_sep(rel, '\t');
    assert(seq![hash] + (seq![id] + seq![rel]) =~= seq![hash, id, rel]);
}

/// Entry `e` is a file inside the versions directory.
pub open spec fn is_nested_candidate(e: ArchiveEntry) -> bool {
    &&& !e.is_dir
    &&& e.path is Some
    &&& JAR_VERSIONS_PATH@.len() <= e.path->0@.len()
    &&& e.path->0@.take(JAR_VERSIONS_PATH@.len() as int) == JAR_VERSIONS_PATH@
}

/// What `pattern` says of the file name of entry `e`.
pub open spec fn name_search(pattern: Seq<char>, e: ArchiveEntry) -> Option<bool> {
    regex_search(pattern, split_on(e.path->0@, '/').last())
}

/// No candidate before index `k` has a file name that `pattern` matches.
pub open spec fn no_name_before(pattern: Seq<char>, entries: Seq<ArchiveEntry>, k: int) -> bool {
    forall|j: int|
        0 <= j < k && is_nested_candidate(#[trigger] entries[j]) ==> name_search(
            pattern,
            entries[j],
        ) == Some(false)
}

/// The first file in the versions directory whose file name `pattern` matches.
pub fn resolve_by_name(entries: &Vec<ArchiveEntry>, pattern: &str) -> (r: Result<String, PipelineError>)
    ensures
        r matches Ok(p) ==> exists|k: int|
            0 <= k < entries@.len() && is_nested_candidate(#[trigger] entries@[k]) && name_search(
                pattern@,
                entries@[k],
            ) == Some(true) && no_name_before(pattern@, entries@, k) && p@ == entries@[k].path->0@,
        r == Err::<String, PipelineError>(PipelineError::PayloadNotFound) <==> no_name_before(
            pattern@,
            entries@,
            entries@.len() as int,
        ),
        r == Err::<String, PipelineError>(PipelineError::InvalidPattern) ==> exists|k: int|
            0 <= k < entries@.len() && is_nested_candidate(#[trigger] entries@[k]) && name_search(
                pattern@,
                entries@[k],
            ) is None && no_name_before(pattern@, entries@, k),
        r matches Err(e) ==> e == PipelineError::PayloadNotFound || e
            == PipelineError::InvalidPattern,
{
    let mut i: usize = 0;
    while i < entries.len()
        invariant
            i <= entries@.len(),
            no_name_before(pattern@, entries@, i as int),
        decreases entries.len() - i,
    {
        let e = &entries[i];
        if !e.is_dir {
            match &e.path {
                Some(path) => {
                    if has_prefix(path.as_str(), JAR_VERSIONS_PATH) {
                        let name = last_component(path.as_str());
                        match regex_is_match(pattern, name.as_str()) {
                            Ok(true) => {
                                assert(is_nested_candidate(entries@[i as int]));
                                return Ok(path.clone());
                            },
                            Ok(false) => {},
                            Err(_) => {
                                assert(is_nested_candidate(entries@[i as int]));
                                return Err(PipelineError::InvalidPattern);
                            },
                        }
                    }
                },
                None => {},
            }
        }
        i = i + 1;
    }
    Err(PipelineError::PayloadNotFound)
}

/// Where an archive's payload is.
#[derive(Clone, Debug, PartialEq, Eq)]
pub enum PayloadLocation {
    /// The archive is the payload.
    Archive,
    /// The payload is the archive entry at this path.
    Nested(String),
}

/// Resolves the payload of an archive with entries `entries`. Without a versions directory
/// the archive is the payload. Otherwise the manifest list (`manifest`, when it could be
/// read) names it; failing that, the first file of the versions directory whose name
/// `pattern` matches; failing both, `PayloadNotFound`.
pub fn locate_payload(entries: &Vec<ArchiveEntry>, manifest: Option<String>, pattern: &str) -> (r:
    Result<PayloadLocation, PipelineError>)
    ensures
        !has_directory(entries@, JAR_VERSIONS_PATH@) ==> r == Ok::<PayloadLocation, PipelineError>(
            PayloadLocation::Archive,
        ),
        has_directory(entries@, JAR_VERSIONS_PATH@) && manifest is Some && manifest_entry(
            manifest->0@,
        ) is Some ==> (r matches Ok(PayloadLocation::Nested(p)) && p@ == JAR_VERSIONS_PATH@
            + manifest_entry(manifest->0@)->0),
        has_directory(entries@, JAR_VERSIONS_PATH@) && (manifest is None || manifest_entry(
            manifest->0@,
        ) is None) ==> ((r matches Ok(PayloadLocation::Nested(p)) && exists|k: int|
            0 <= k < entries@.len() && is_nested_candidate(#[trigger] entries@[k]) && name_search(
                pattern@,
                entries@[k],
            ) == Some(true) && no_name_before(pattern@, entries@, k) && p@ == entries@[k].path->0@)
            || (r == Err::<PayloadLocation, PipelineError>(PipelineError::PayloadNotFound)
            && no_name_before(pattern@, entries@, entries@.len() as int)) || (r == Err::<
            PayloadLocation,
            PipelineError,
        >(PipelineError::InvalidPattern) && exists|k: int|
            0 <= k < entries@.len() && is_nested_candidate(#[trigger] entries@[k]) && name_search(
                pattern@,
                entries@[k],
            ) is None && no_name_before(pattern@, entries@, k))),
{
    if !contains_directory(entries, JAR_VERSIONS_PATH) {
        return Ok(PayloadLocation::Archive);
    }
    let from_manifest = match &manifest {
        Some(m) => manifest_payload(m.as_str()),
        None => None,
    };
    match from_manifest {
        Some(rel) => {
            let path = String::from_str(JAR_VERSIONS_PATH).concat(rel.as_str());
            Ok(PayloadLocation::Nested(path))
        },
        None => match resolve_by_name(entries, pattern) {
            Ok(p) => Ok(PayloadLocation::Nested(p)),
            Err(e) => Err(e),
        },
    }
}

} // verus!
