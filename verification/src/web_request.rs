//! Finding the archive of a departement on a download page of the national
//! geographic institute.
//!
//! Fetching the page is left to the host. The page is parsed by the `scraper`
//! crate; which of its links names the archive wanted is decided here.

use vstd::prelude::*;
use vstd::string::{StringExecFns, StringSliceAdditionalSpecFns};
use crate::text::{
    after_last,
    before_first,
    chars_of,
    comes_before,
    contains_text,
    lemma_order_irreflexive,
    lemma_order_total,
    lemma_order_transitive,
    occurs_in,
    part_after_last,
    part_before_first,
    precedes,
};

verus! {

/// Why no archive was found on a page.
#[derive(Clone, Debug, PartialEq, Eq)]
pub enum WebError {
    /// The page is longer than [`MAX_PAGE_BYTES`] and was not parsed.
    PageTooLong,
    /// The selector for links was refused; the text says why.
    Selector(String),
    /// No link of the page names an archive of the departement.
    NoFileFound,
}

impl WebError {
    /// The text that reports this error.
    pub open spec fn message_of(self) -> Seq<char> {
        match self {
            WebError::PageTooLong => "The page is too long"@,
            WebError::Selector(text) => text@,
            WebError::NoFileFound => "No file found"@,
        }
    }

    /// Writes the text that reports this error.
    pub fn message(&self) -> (text: String)
        ensures
            text@ == self.message_of(),
    {
        match self {
            WebError::PageTooLong => "The page is too long".to_owned(),
            WebError::Selector(text) => text.clone(),
            WebError::NoFileFound => "No file found".to_owned(),
        }
    }
}

/// The longest page, in bytes, that is handed to the parser: half a gibibyte.
///
/// The parser keeps text in buffers that hold at most four gibibytes and
/// whose capacity grows by powers of two, and it stops the program when a
/// buffer would grow beyond that. What it makes of a page takes at most
/// three times the page's bytes, so no buffer for a page of this length
/// reaches the limit.
pub const MAX_PAGE_BYTES: usize = 0x2000_0000;

/// What `scraper` finds on a page: for every `a` element of the parsed page,
/// in the order in which `scraper` hands them out, the value of its `href`
/// attribute, or nothing where the element has none. An error stands for a
/// selector that `scraper` refused, with its text.
pub uninterp spec fn anchor_references(page: Seq<char>) -> Result<
    Seq<Option<Seq<char>>>,
    Seq<char>,
>;

/// The texts of a list of references.
pub open spec fn reference_texts(references: Seq<Option<String>>) -> Seq<Option<Seq<char>>> {
    references.map_values(
        |r: Option<String>|
            match r {
                Some(text) => Some(text@),
                None => None,
            },
    )
}

/// Parses a page with `scraper::Html::parse_document`, selects its `a`
/// elements with the selector that `scraper::Selector::parse` makes of `"a"`,
/// and reads the `href` attribute of each with `Element::attr`. The contract
/// claims only that the answer is a function of the page's text: it is what
/// [`anchor_references`] names. The parser stops the program on a page whose
/// text overflows its buffers; pages that long are left out.
#[verifier::external_body]
fn anchors_of(page: &str) -> (found: Result<Vec<Option<String>>, String>)
    requires
        page.spec_bytes().len() <= MAX_PAGE_BYTES,
    ensures
        match found {
            Ok(references) => anchor_references(page@) == Ok::<
                Seq<Option<Seq<char>>>,
                Seq<char>,
            >(reference_texts(references@)),
            Err(text) => anchor_references(page@) == Err::<Seq<Option<Seq<char>>>, Seq<char>>(
                text@,
            ),
        },
{
    let selector = match scraper::Selector::parse("a") {
        Ok(selector) => selector,
        Err(refusal) => return Err(refusal.to_string()),
    };
    let document = scraper::Html::parse_document(page);
    Ok(
        document.select(&selector).map(
            |anchor| anchor.value().attr("href").map(|target| target.to_string()),
        ).collect(),
    )
}

/// The mark by which a link names the departement with the code `code`.
pub open spec fn marker_of(code: Seq<char>) -> Seq<char> {
    "D0"@ + code
}

/// The date in the name of an archive: what stands behind the last `_` of
/// the link, up to the first `.` behind it.
pub open spec fn date_of(link: Seq<char>) -> Seq<char> {
    before_first(after_last(link, '_'), '.')
}

/// Whether a reference is a link to an archive of the departement.
pub open spec fn is_candidate(reference: Option<Seq<char>>, code: Seq<char>) -> bool {
    reference is Some && occurs_in(reference->0, marker_of(code))
}

/// Whether reference `i` is the one chosen: a link to an archive of the
/// departement whose date no other such link exceeds, and the first of the
/// links with that date.
pub open spec fn is_latest(references: Seq<Option<Seq<char>>>, code: Seq<char>, i: int) -> bool {
    &&& 0 <= i < references.len()
    &&& is_candidate(references[i], code)
    &&& forall|j: int|
        0 <= j < references.len() && is_candidate(#[trigger] references[j], code) ==> !comes_before(
            date_of(references[i]->0),
            date_of(references[j]->0),
        )
    &&& forall|j: int|
        0 <= j < i && is_candidate(#[trigger] references[j], code) ==> comes_before(
            date_of(references[j]->0),
            date_of(references[i]->0),
        )
}

/// The link chosen among the references, if any of them is a link to an
/// archive of the departement.
pub open spec fn chosen_archive(references: Seq<Option<Seq<char>>>, code: Seq<char>) -> Option<
    Seq<char>,
> {
    if exists|i: int| is_latest(references, code, i) {
        references[choose|i: int| is_latest(references, code, i)]
    } else {
        None
    }
}

/// At most one reference is the one chosen.
pub proof fn lemma_latest_unique(references: Seq<Option<Seq<char>>>, code: Seq<char>, i: int, j: int)
    requires
        is_latest(references, code, i),
        is_latest(references, code, j),
    ensures
        i == j,
{
    if i < j {
        assert(is_candidate(references[i], code));
        assert(comes_before(date_of(references[i]->0), date_of(references[j]->0)));
        assert(is_candidate(references[j], code));
    } else if j < i {
        assert(is_candidate(references[j], code));
        assert(comes_before(date_of(references[j]->0), date_of(references[i]->0)));
        assert(is_candidate(references[i], code));
    }
}

/// Copies the date out of the name of an archive.
pub fn date_in(link: &[char]) -> (date: Vec<char>)
    ensures
        date@ == date_of(link@),
{
    let tail = part_after_last(link, '_');
    part_before_first(tail.as_slice(), '.')
}

/// Chooses among the references the link to the newest archive of the
/// departement: the link holds the departement's mark, no other such link
/// has a later date, and of several links with that date the first is taken.
pub fn latest_archive(references: &Vec<Option<String>>, code: &str) -> (found: Option<String>)
    ensures
        found is Some <==> exists|i: int|
            0 <= i < references@.len() && is_candidate(
                #[trigger] reference_texts(references@)[i],
                code@,
            ),
        match found {
            Some(link) => Some(link@) == chosen_archive(reference_texts(references@), code@),
            None => chosen_archive(reference_texts(references@), code@) is None,
        },
{
    let ghost texts = reference_texts(references@);
    let mut marker = chars_of("D0");
    let mut code_chars = chars_of(code);
    marker.append(&mut code_chars);
    let mut best: Option<usize> = None;
    let mut best_date: Vec<char> = Vec::new();
    let mut i: usize = 0;
    while i < references.len()
        invariant
            i <= references@.len(),
            texts == reference_texts(references@),
            marker@ == marker_of(code@),
            best is None ==> forall|j: int| 0 <= j < i ==> !is_candidate(#[trigger] texts[j], code@),
            best is Some ==> {
                &&& 0 <= best->0 < i
                &&& is_candidate(texts[best->0 as int], code@)
                &&& best_date@ == date_of(texts[best->0 as int]->0)
                &&& forall|j: int|
                    0 <= j < i && is_candidate(#[trigger] texts[j], code@) ==> !comes_before(
                        best_date@,
                        date_of(texts[j]->0),
                    )
                &&& forall|j: int|
                    0 <= j < best->0 && is_candidate(#[trigger] texts[j], code@) ==> comes_before(
                        date_of(texts[j]->0),
                        best_date@,
                    )
            },
        decreases references@.len() - i,
    {
        match &references[i] {
            None => {},
            Some(link) => {
                let chars = chars_of(link.as_str());
                assert(texts[i as int] == Some(chars@));
                if contains_text(chars.as_slice(), marker.as_slice()) {
                    let date = date_in(chars.as_slice());
                    let newer = match best {
                        None => true,
                        Some(_) => precedes(best_date.as_slice(), date.as_slice()),
                    };
                    if newer {
                        proof {
                            lemma_order_irreflexive(date@);
                            if best is Some {
                                assert forall|j: int|
                                    0 <= j < i && is_candidate(
                                        #[trigger] texts[j],
                                        code@,
                                    ) implies !comes_before(date@, date_of(texts[j]->0))
                                    && comes_before(date_of(texts[j]->0), date@) by {
                                    let other = date_of(texts[j]->0);
                                    if comes_before(date@, other) {
                                        lemma_order_transitive(best_date@, date@, other);
                                    }
                                    if !comes_before(other, date@) {
                                        lemma_order_total(best_date@, other, date@);
                                    }
                                }
                            }
                        }
                        best = Some(i);
                        best_date = date;
                    }
                }
            },
        }
        i += 1;
    }
    match best {
        None => {
            assert forall|k: int| !is_latest(texts, code@, k) by {
                if 0 <= k < texts.len() {
                    assert(!is_candidate(texts[k], code@));
                }
            }
            None
        },
        Some(at) => {
            proof {
                assert(is_latest(texts, code@, at as int));
                lemma_latest_unique(
                    texts,
                    code@,
                    at as int,
                    choose|k: int| is_latest(texts, code@, k),
                );
            }
            match &references[at] {
                Some(link) => Some(link.clone()),
                None => None,
            }
        },
    }
}

/// Finds on a page the link to the newest archive of the departement with
/// the code `code`. A page longer than [`MAX_PAGE_BYTES`] is turned away
/// unread. Any other page is handed to `scraper`; among the references it
/// finds the link is chosen as [`latest_archive`] says.
pub fn get_departement_shp_file_url(code: &str, page: &str) -> (found: Result<String, WebError>)
    ensures
        page.spec_bytes().len() > MAX_PAGE_BYTES <==> found is Err && found->Err_0 is PageTooLong,
        page.spec_bytes().len() <= MAX_PAGE_BYTES ==> match anchor_references(page@) {
            Err(text) => found is Err && found->Err_0 is Selector && found->Err_0->Selector_0@
                == text,
            Ok(references) => match chosen_archive(references, code@) {
                Some(link) => found is Ok && found->Ok_0@ == link,
                None => found is Err && found->Err_0 is NoFileFound,
            },
        },
{
    if page.as_bytes().len() > MAX_PAGE_BYTES {
        return Err(WebError::PageTooLong);
    }
    match anchors_of(page) {
        Err(text) => Err(WebError::Selector(text)),
        Ok(references) => match latest_archive(&references, code) {
            Some(link) => Ok(link),
            None => Err(WebError::NoFileFound),
        },
    }
}

/// The page that lists the topographic archives.
pub const BDTOPO_PAGE: &'static str = "https://geoservices.ign.fr/bdtopo#telechargementgpkgreg";

/// The page that lists the forest archives.
pub const BDFORET_PAGE: &'static str = "https://geoservices.ign.fr/bdforet#telechargementv2";

/// The database that a link belongs to, told by its name in the link:
/// `BDTOPO`, else `BDFORET`, else `unknown`.
pub open spec fn archive_name_of(url: Seq<char>) -> Seq<char> {
    if occurs_in(url, "BDTOPO"@) {
        "BDTOPO"@
    } else if occurs_in(url, "BDFORET"@) {
        "BDFORET"@
    } else {
        "unknown"@
    }
}

/// Where the archive of a database is kept for the departement with the
/// code `code`.
pub open spec fn archive_path_of(name: Seq<char>, code: Seq<char>) -> Seq<char> {
    "tmp/"@ + name + "_"@ + code + ".7z"@
}

/// Tells which database a link belongs to.
pub fn archive_name(url: &str) -> (name: &'static str)
    ensures
        name@ == archive_name_of(url@),
{
    let chars = chars_of(url);
    let topo = chars_of("BDTOPO");
    let foret = chars_of("BDFORET");
    if contains_text(chars.as_slice(), topo.as_slice()) {
        "BDTOPO"
    } else if contains_text(chars.as_slice(), foret.as_slice()) {
        "BDFORET"
    } else {
        "unknown"
    }
}

/// Writes the path at which the archive of a database is kept.
pub fn archive_path(name: &str, code: &str) -> (path: String)
    ensures
        path@ == archive_path_of(name@, code@),
{
    let mut path = "tmp/".to_owned();
    path.append(name);
    path.append("_");
    path.append(code);
    path.append(".7z");
    path
}

/// Decides whether the archives of a departement have to be downloaded:
/// they have, unless both are there already.
pub fn download_needed(topo_present: bool, forest_present: bool) -> (needed: bool)
    ensures
        needed == !(topo_present && forest_present),
{
    !(topo_present && forest_present)
}

/// Writes the path to which the archive behind a link is downloaded.
pub fn download_target(url: &str, code: &str) -> (path: String)
    ensures
        path@ == archive_path_of(archive_name_of(url@), code@),
{
    archive_path(archive_name(url), code)
}

} // verus!
