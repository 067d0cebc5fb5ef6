//! Catalog data: search results and chapter listings, with the filters the
//! reader applies to what the remote catalog returns.

use vstd::prelude::*;
use vstd::seq_lib::group_seq_properties;
use vstd::string::StringExecFns;

verus! {

/// Attributes associated with a manga entry.
///
/// Titles and descriptions are per-language association lists, keyed by a
/// language code such as `"en"`; the first pair with a matching key wins.
#[derive(Clone, Debug)]
pub struct MangaAttributes {
    /// Titles in different languages.
    pub title: Option<Vec<(String, String)>>,
    /// Descriptions in different languages.
    pub description: Option<Vec<(String, String)>>,
    /// Targeted publication demographic.
    pub publication_demographic: Option<String>,
    /// Serialization status of the manga.
    pub status: Option<String>,
    /// Year of publication.
    pub year: Option<usize>,
}

/// One manga entry of a search response.
#[derive(Clone, Debug)]
pub struct MangaData {
    /// Unique identifier for the manga.
    pub id: String,
    /// Resource type (usually "manga").
    pub type_: String,
    /// Attributes containing manga information.
    pub attributes: MangaAttributes,
}

/// A page of a manga search response.
#[derive(Clone, Debug)]
pub struct SearchResponse {
    /// Result status of the request.
    pub result: String,
    /// Type of the response, if the API reports one.
    pub response: Option<String>,
    /// The manga entries.
    pub data: Vec<MangaData>,
    /// Number of items returned in this page.
    pub limit: usize,
    /// Number of items skipped.
    pub offset: usize,
    /// Total number of items matching the query.
    pub total: usize,
}

/// Attributes associated with a chapter.
#[derive(Clone, Debug)]
pub struct ChapterAttributes {
    /// Volume number, if any.
    pub volume: Option<String>,
    /// Chapter number, if any.
    pub chapter: Option<String>,
    /// Title of the chapter, if any.
    pub title: Option<String>,
    /// The language the chapter was translated to.
    pub translated_language: Option<String>,
    /// Whether the chapter is currently unavailable.
    pub is_unavailable: bool,
    /// Number of pages in the chapter, if the API reports it.
    pub pages: Option<usize>,
}

/// One chapter of a chapter feed.
#[derive(Clone, Debug)]
pub struct ChapterData {
    /// Unique identifier for the chapter.
    pub id: String,
    /// Resource type (usually "chapter").
    pub type_: String,
    /// Attributes containing chapter information.
    pub attributes: ChapterAttributes,
}

/// A page of a chapter feed response.
#[derive(Clone, Debug)]
pub struct ChapterResponse {
    /// Result status of the request.
    pub result: String,
    /// Type of the response.
    pub response: String,
    /// The chapter entries.
    pub data: Vec<ChapterData>,
    /// Number of items returned in this page.
    pub limit: usize,
    /// Number of items skipped.
    pub offset: usize,
    /// Total number of items matching the query.
    pub total: usize,
}

/// The value of the first pair of `entries` whose key reads `lang`.
pub open spec fn spec_lookup(entries: Seq<(String, String)>, lang: Seq<char>) -> Option<String>
    decreases entries.len(),
{
    if entries.len() == 0 {
        None
    } else if entries[0].0@ == lang {
        Some(entries[0].1)
    } else {
        spec_lookup(entries.drop_first(), lang)
    }
}

/// Looks up the first entry of a per-language association list whose key
/// equals `lang`, returning a copy of its value.
pub fn lookup_entry(entries: &Vec<(String, String)>, lang: &String) -> (r: Option<String>)
    ensures
        match r {
            Some(v) => spec_lookup(entries@, lang@) matches Some(w) && v@ == w@,
            None => spec_lookup(entries@, lang@) is None,
        },
{
    proof {
        assert(entries@.skip(0) =~= entries@);
    }
    let mut i: usize = 0;
    while i < entries.len()
        invariant
            0 <= i <= entries@.len(),
            spec_lookup(entries@, lang@) == spec_lookup(entries@.skip(i as int), lang@),
        decreases entries@.len() - i,
    {
        let pair = &entries[i];
        if pair.0 == *lang {
            assert(entries@.skip(i as int)[0] == entries@[i as int]);
            return Some(pair.1.clone());
        }
        assert(entries@.skip(i as int).drop_first() =~= entries@.skip(i + 1));
        assert(entries@.skip(i as int)[0] == entries@[i as int]);
        i = i + 1;
    }
    assert(entries@.skip(i as int) =~= Seq::<(String, String)>::empty());
    None
}

/// A manga is worth showing when it carries an English title other than the
/// placeholder `"Unknown Title"`.
pub open spec fn has_displayable_title(m: MangaData) -> bool {
    match m.attributes.title {
        Some(entries) => match spec_lookup(entries@, "en"@) {
            Some(t) => t@ != "Unknown Title"@,
            None => false,
        },
        None => false,
    }
}

/// Decides [`has_displayable_title`] for one entry.
pub fn manga_title_displayable(m: &MangaData) -> (r: bool)
    ensures
        r == has_displayable_title(*m),
{
    let lang = String::from_str("en");
    let placeholder = String::from_str("Unknown Title");
    match &m.attributes.title {
        Some(entries) => match lookup_entry(entries, &lang) {
            Some(t) => !(t == placeholder),
            None => false,
        },
        None => false,
    }
}

/// Drops the search results without a displayable English title, keeping the
/// order of the rest.
pub fn filter_search_results(data: Vec<MangaData>) -> (r: Vec<MangaData>)
    ensures
        r@ == data@.filter(|m: MangaData| has_displayable_title(m)),
{
    broadcast use group_seq_properties;

    let ghost orig = data@;
    let mut input = data;
    let mut out: Vec<MangaData> = Vec::new();
    let ghost pred = |m: MangaData| has_displayable_title(m);
    let total = input.len();
    proof {
        assert(orig.len() == total as int);
        assert(orig.take(0) =~= Seq::<MangaData>::empty());
        reveal(Seq::filter);
    }
    let mut k: usize = 0;
    while input.len() > 0
        invariant
            orig.len() <= usize::MAX,
            k == orig.len() - input@.len(),
            0 <= k <= orig.len(),
            input@ =~= orig.skip(k as int),
            out@ == orig.take(k as int).filter(pred),
            pred == (|m: MangaData| has_displayable_title(m)),
        decreases input@.len(),
    {
        let m = input.remove(0);
        proof {
            assert(m == orig[k as int]);
            assert(orig.take(k + 1).drop_last() =~= orig.take(k as int));
            assert(orig.take(k + 1).last() == orig[k as int]);
            reveal(Seq::filter);
        }
        if manga_title_displayable(&m) {
            out.push(m);
        }
        proof {
            assert(input@ =~= orig.skip(k + 1));
        }
        k = k + 1;
    }
    proof {
        assert(orig.take(k as int) =~= orig);
    }
    out
}

/// A chapter is readable when the API reports a positive page count for it.
pub open spec fn has_pages(c: ChapterData) -> bool {
    match c.attributes.pages {
        Some(p) => p > 0,
        None => false,
    }
}

/// Drops the chapters that report no pages, keeping the order of the rest.
pub fn filter_chapters(data: Vec<ChapterData>) -> (r: Vec<ChapterData>)
    ensures
        r@ == data@.filter(|c: ChapterData| has_pages(c)),
{
    broadcast use group_seq_properties;

    let ghost orig = data@;
    let mut input = data;
    let mut out: Vec<ChapterData> = Vec::new();
    let ghost pred = |c: ChapterData| has_pages(c);
    let total = input.len();
    proof {
        assert(orig.len() == total as int);
        assert(orig.take(0) =~= Seq::<ChapterData>::empty());
        reveal(Seq::filter);
    }
    let mut k: usize = 0;
    while input.len() > 0
        invariant
            orig.len() <= usize::MAX,
            k == orig.len() - input@.len(),
            0 <= k <= orig.len(),
            input@ =~= orig.skip(k as int),
            out@ == orig.take(k as int).filter(pred),
            pred == (|c: ChapterData| has_pages(c)),
        decreases input@.len(),
    {
        let c = input.remove(0);
        proof {
            assert(c == orig[k as int]);
            assert(orig.take(k + 1).drop_last() =~= orig.take(k as int));
            assert(orig.take(k + 1).last() == orig[k as int]);
            reveal(Seq::filter);
        }
        let keep = match c.attributes.pages {
            Some(p) => p > 0,
            None => false,
        };
        if keep {
            out.push(c);
        }
        proof {
            assert(input@ =~= orig.skip(k + 1));
        }
        k = k + 1;
    }
    proof {
        assert(orig.take(k as int) =~= orig);
    }
    out
}

} // verus!
