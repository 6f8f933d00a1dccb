//! Release listings, release metadata, and the choice of a release's metadata entry.
use vstd::prelude::*;

pub mod piston;
pub mod schema;
pub mod spigot;

use crate::error::PipelineError;
use crate::payload::regex_search;
use crate::text::occurs_at;
use schema::{Version, VersionsResponse};

verus! {

/// `k` is the first index of `vs` whose identifier is `id`.
pub open spec fn is_first_with_id(vs: Seq<Version>, id: Seq<char>, k: int) -> bool {
    &&& 0 <= k < vs.len()
    &&& vs[k].id@ == id
    &&& forall|j: int| 0 <= j < k ==> (#[trigger] vs[j]).id@ != id
}

pub open spec fn has_id(vs: Seq<Version>, id: Seq<char>) -> bool {
    exists|j: int| 0 <= j < vs.len() && (#[trigger] vs[j]).id@ == id
}

/// The index of the first entry with identifier `id`.
pub fn find_version_index(vs: &Vec<Version>, id: &String) -> (r: Option<usize>)
    ensures
        r is None <==> !has_id(vs@, id@),
        r matches Some(k) ==> is_first_with_id(vs@, id@, k as int),
{
    let mut i: usize = 0;
    while i < vs.len()
        invariant
            i <= vs@.len(),
            forall|j: int| 0 <= j < i ==> (#[trigger] vs@[j]).id@ != id@,
        decreases vs.len() - i,
    {
        if vs[i].id == *id {
            return Some(i);
        }
        i = i + 1;
    }
    None
}

/// Picks the metadata entry of `version`, falling back to the latest release when the
/// index does not list it; `VersionNotListed` when neither is listed.
pub fn select_version(versions: &VersionsResponse, version: &String) -> (r: Result<usize, PipelineError>)
    ensures
        has_id(versions.versions@, version@) ==> (r matches Ok(k) && is_first_with_id(
            versions.versions@,
            version@,
            k as int,
        )),
        !has_id(versions.versions@, version@) && has_id(versions.versions@, versions.latest.release@)
            ==> (r matches Ok(k) && is_first_with_id(
            versions.versions@,
            versions.latest.release@,
            k as int,
        )),
        !has_id(versions.versions@, version@) && !has_id(versions.versions@, versions.latest.release@)
            ==> r == Err::<usize, PipelineError>(PipelineError::VersionNotListed),
{
    match find_version_index(&versions.versions, version) {
        Some(k) => Ok(k),
        None => match find_version_index(&versions.versions, &versions.latest.release) {
            Some(k) => Ok(k),
            None => Err(PipelineError::VersionNotListed),
        },
    }
}

/// The shape of a release identifier in the release listing.
pub const VERSION_REGEX: &'static str = r"^1\.\d{1,2}(?:\.\d{1,2})?$";

/// For each element of `html` that `selector` selects, in document order, the value of
/// its attribute `attribute` if it has one; `None` when the selector does not parse.
pub uninterp spec fn html_attribute_values(
    html: Seq<char>,
    selector: Seq<char>,
    attribute: Seq<char>,
) -> Option<Seq<Option<Seq<char>>>>;

pub open spec fn opt_views(v: Seq<Option<String>>) -> Seq<Option<Seq<char>>> {
    v.map_values(|o: Option<String>| crate::archive::opt_view(o))
}

/// Relies on scraper::Html::parse_document, Selector::parse, Html::select and
/// Element::attr: the attribute of every selected element, in document order.
#[verifier::external_body]
fn select_attribute(html: &str, selector: &str, attribute: &str) -> (r: Option<Vec<Option<String>>>)
    ensures
        r matches Some(v) ==> html_attribute_values(html@, selector@, attribute@) == Some(
            opt_views(v@),
        ),
        r is None ==> html_attribute_values(html@, selector@, attribute@) is None,
{
    let document = scraper::Html::parse_document(html);
    let selector = scraper::Selector::parse(selector).ok()?;
    let mut values = Vec::new();
    for element in document.select(&selector) {
        values.push(element.value().attr(attribute).map(String::from));
    }
    Some(values)
}

/// A link target without its `.json` suffix, if it has one.
pub open spec fn strip_json(h: Seq<char>) -> Seq<char> {
    if h.len() >= ".json"@.len() && h.skip(h.len() - ".json"@.len()) == ".json"@ {
        h.take(h.len() - ".json"@.len())
    } else {
        h
    }
}

/// The release identifiers among the link targets `hrefs`, in order; `None` when the
/// identifier pattern fails to compile.
pub open spec fn versions_from(hrefs: Seq<Option<Seq<char>>>) -> Option<Seq<Seq<char>>>
    decreases hrefs.len(),
{
    if hrefs.len() == 0 {
        Some(Seq::empty())
    } else {
        let rest = versions_from(hrefs.drop_last());
        match hrefs.last() {
            None => rest,
            Some(h) => match regex_search(VERSION_REGEX@, strip_json(h)) {
                Some(true) => match rest {
                    Some(r) => Some(r.push(strip_json(h))),
                    None => None,
                },
                Some(false) => rest,
                None => None,
            },
        }
    }
}

proof fn lemma_versions_failure_persists(hrefs: Seq<Option<Seq<char>>>, i: int)
    requires
        0 <= i <= hrefs.len(),
        versions_from(hrefs.take(i)) is None,
    ensures
        versions_from(hrefs) is None,
    decreases hrefs.len() - i,
{
    if i < hrefs.len() {
        assert(hrefs.take(i + 1).drop_last() =~= hrefs.take(i));
        lemma_versions_failure_persists(hrefs, i + 1);
    } else {
        assert(hrefs.take(i) =~= hrefs);
    }
}

/// `h` without a trailing `.json`.
fn strip_json_suffix(h: &str) -> (r: String)
    ensures
        r@ == strip_json(h@),
{
    let n = h.unicode_len();
    let m = ".json".unicode_len();
    if m <= n && occurs_at(h, n, n - m, ".json", m) {
        assert(h@.skip(n - m).take(m as int) =~= h@.skip(n - m));
        assert(h@.subrange(0, n - m) =~= h@.take(n - m));
        String::from_str(h.substring_char(0, n - m))
    } else {
        if m <= n {
            assert(h@.skip(n - m).take(m as int) =~= h@.skip(n - m));
        }
        String::from_str(h)
    }
}

/// The release identifiers that a listing page links to: each link target, without a
/// `.json` suffix, that has the shape of a release identifier, in page order.
pub fn filter_versions(document: &str) -> (r: Result<Vec<String>, PipelineError>)
    ensures
        r is Ok <==> (html_attribute_values(document@, "a"@, "href"@) matches Some(hrefs)
            && versions_from(hrefs) is Some),
        r matches Ok(v) ==> html_attribute_values(document@, "a"@, "href"@) matches Some(hrefs)
            && versions_from(hrefs) == Some(v@.map_values(|s: String| s@)),
        r matches Err(e) ==> e == PipelineError::InvalidPattern,
{
    let hrefs = match select_attribute(document, "a", "href") {
        Some(h) => h,
        None => {
            return Err(PipelineError::InvalidPattern);
        },
    };
    let ghost hv = opt_views(hrefs@);
    let mut list: Vec<String> = Vec::new();
    let mut i: usize = 0;
    assert(hv.take(0) =~= Seq::<Option<Seq<char>>>::empty());
    assert(list@.map_values(|s: String| s@) =~= Seq::<Seq<char>>::empty());
    while i < hrefs.len()
        invariant
            i <= hrefs@.len(),
            hv == opt_views(hrefs@),
            html_attribute_values(document@, "a"@, "href"@) == Some(hv),
            versions_from(hv.take(i as int)) == Some(list@.map_values(|s: String| s@)),
        decreases hrefs.len() - i,
    {
        proof {
            assert(hv.take(i + 1).drop_last() =~= hv.take(i as int));
            assert(hv.take(i + 1).last() == hv[i as int]);
        }
        match &hrefs[i] {
            Some(h) => {
                let href = strip_json_suffix(h.as_str());
                match crate::payload::regex_is_match(VERSION_REGEX, href.as_str()) {
                    Ok(true) => {
                        let ghost before = list@;
                        list.push(href);
                        assert(list@.map_values(|s: String| s@) =~= before.map_values(
                            |s: String| s@,
                        ).push(strip_json(h@)));
                    },
                    Ok(false) => {},
                    Err(_) => {
                        proof {
                            lemma_versions_failure_persists(hv, i + 1);
                        }
                        return Err(PipelineError::InvalidPattern);
                    },
                }
            },
            None => {},
        }
        i = i + 1;
    }
    assert(hv.take(hrefs@.len() as int) =~= hv);
    Ok(list)
}

} // verus!
