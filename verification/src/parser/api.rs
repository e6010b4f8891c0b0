//! The records of the Kodik search API and the choice of a video source
//! among its results.

use std::collections::BTreeMap;

use vstd::prelude::*;

use crate::parser::error::ParserError;
use crate::text::{decimal, str_eq, trim, trimmed, usize_to_decimal};
use crate::utils::error::UtilsError;
use crate::utils::pattern::{regex_compile_error, regex_compiles, regex_is_match, CompiledPattern};

verus! {

/// The answer of the Kodik search API.
#[derive(Debug, Clone, PartialEq, Eq)]
pub struct KodikApiResponse {
    pub results: Results,
}

/// The results of a search.
pub type Results = Vec<SearchResult>;

/// One video source: a player link and its translation.
#[derive(Debug, Clone, PartialEq, Eq)]
pub struct SearchResult {
    pub link: String,
    pub title: String,
    pub translation: Translation,
    pub seasons: Option<BTreeMap<usize, Season>>,
}

/// The translation of a video source.
#[derive(Debug, Clone, PartialEq, Eq)]
pub struct Translation {
    pub title: String,
    pub translation_type: TranslationType,
}

/// Voice-over or subtitles.
#[derive(Debug, Clone, Copy, PartialEq, Eq, Structural)]
pub enum TranslationType {
    Voice,
    Subtitles,
}

/// The episodes of a season, by number.
#[derive(Debug, Clone, PartialEq, Eq)]
pub struct Season {
    pub episodes: BTreeMap<usize, String>,
}

/// The name of a translation type, as the API writes it.
pub open spec fn translation_type_name(t: TranslationType) -> Seq<char> {
    match t {
        TranslationType::Voice => "voice"@,
        TranslationType::Subtitles => "subtitles"@,
    }
}

/// The translation type that `value` names, once trimmed.
pub open spec fn parse_translation_type(value: Seq<char>) -> Option<TranslationType> {
    if trimmed(value) == "voice"@ {
        Some(TranslationType::Voice)
    } else if trimmed(value) == "subtitles"@ {
        Some(TranslationType::Subtitles)
    } else {
        None
    }
}

impl TranslationType {
    /// The name of the type (its `Display`).
    pub fn as_str(&self) -> (s: &'static str)
        ensures
            s@ == translation_type_name(*self),
    {
        match self {
            TranslationType::Voice => "voice",
            TranslationType::Subtitles => "subtitles",
        }
    }

    /// Reads a translation type from its name (its `FromStr`); the value is
    /// trimmed first.
    pub fn from_str(value: &str) -> (r: Result<Self, ParserError>)
        ensures
            match parse_translation_type(value@) {
                Some(t) => r == Ok::<TranslationType, ParserError>(t),
                None => r matches Err(ParserError::InvalidTranslationType(m)) && m@ == trimmed(value@),
            },
    {
        let value = trim(value);
        if str_eq(value, "voice") {
            Ok(TranslationType::Voice)
        } else if str_eq(value, "subtitles") {
            Ok(TranslationType::Subtitles)
        } else {
            Err(ParserError::InvalidTranslationType(String::from_str(value)))
        }
    }
}

/// Reading back the name of a translation type gives the type again.
pub proof fn lemma_translation_type_round_trip(t: TranslationType)
    ensures
        parse_translation_type(translation_type_name(t)) == Some(t),
{
    reveal_strlit("voice");
    reveal_strlit("subtitles");
    let n = translation_type_name(t);
    assert(trimmed(n) =~= n);
    if t == TranslationType::Subtitles {
        assert(n[0] != "voice"@[0]);
    }
}

/// The pattern that a translation title is looked up with:
/// `(?i).*{title}.*`.
pub open spec fn title_pattern(title: Seq<char>) -> Seq<char> {
    "(?i).*"@ + title + ".*"@
}

/// For each result, whether the title pattern matches its translation title.
pub open spec fn title_hits(results: Seq<SearchResult>, title: Seq<char>) -> Seq<bool> {
    Seq::new(
        results.len(),
        |k: int| regex_is_match(title_pattern(title), results[k].translation.title@),
    )
}

/// The first index at or after `k` where `hits` holds.
pub open spec fn first_hit_from(hits: Seq<bool>, k: int) -> Option<int>
    decreases hits.len() - k,
{
    if k < 0 || k >= hits.len() {
        None
    } else if hits[k] {
        Some(k)
    } else {
        first_hit_from(hits, k + 1)
    }
}

/// The first index at or after `k` of a result of translation type `t`.
pub open spec fn first_of_type_from(results: Seq<SearchResult>, t: TranslationType, k: int) -> Option<
    int,
>
    decreases results.len() - k,
{
    if k < 0 || k >= results.len() {
        None
    } else if results[k].translation.translation_type == t {
        Some(k)
    } else {
        first_of_type_from(results, t, k + 1)
    }
}

/// The result chosen: the first whose title matched, else the first of the
/// wanted translation type, else the first result.
pub open spec fn chosen_index(
    results: Seq<SearchResult>,
    hits: Option<Seq<bool>>,
    translation_type: Option<TranslationType>,
) -> Option<int> {
    let by_title = match hits {
        Some(h) => first_hit_from(h, 0),
        None => None,
    };
    let by_type = match translation_type {
        Some(t) => first_of_type_from(results, t, 0),
        None => None,
    };
    if by_title is Some {
        by_title
    } else if by_type is Some {
        by_type
    } else if results.len() > 0 {
        Some(0)
    } else {
        None
    }
}

proof fn lemma_first_hit_from(hits: Seq<bool>, k: int)
    requires
        0 <= k,
    ensures
        first_hit_from(hits, k) matches Some(i) ==> k <= i < hits.len() && hits[i],
    decreases hits.len() - k,
{
    if k < hits.len() && !hits[k] {
        lemma_first_hit_from(hits, k + 1);
    }
}

proof fn lemma_first_of_type_from(results: Seq<SearchResult>, t: TranslationType, k: int)
    requires
        0 <= k,
    ensures
        first_of_type_from(results, t, k) matches Some(i) ==> k <= i < results.len()
            && results[i].translation.translation_type == t,
    decreases results.len() - k,
{
    if k < results.len() && results[k].translation.translation_type != t {
        lemma_first_of_type_from(results, t, k + 1);
    }
}

/// The chosen index, when there is one, is the index of a result.
pub proof fn lemma_chosen_index_in_range(
    results: Seq<SearchResult>,
    hits: Option<Seq<bool>>,
    translation_type: Option<TranslationType>,
)
    requires
        hits matches Some(h) ==> h.len() == results.len(),
    ensures
        chosen_index(results, hits, translation_type) matches Some(i) ==> 0 <= i < results.len(),
        chosen_index(results, hits, translation_type) is None <==> results.len() == 0,
{
    match hits {
        Some(h) => lemma_first_hit_from(h, 0),
        None => {},
    }
    match translation_type {
        Some(t) => lemma_first_of_type_from(results, t, 0),
        None => {},
    }
}

proof fn lemma_first_hit_is_least(hits: Seq<bool>, k: int, j: int)
    requires
        0 <= k <= j < hits.len(),
        hits[j],
    ensures
        first_hit_from(hits, k) matches Some(c) && k <= c <= j && hits[c] && forall|m: int|
            k <= m < c ==> !#[trigger] hits[m],
    decreases hits.len() - k,
{
    if !hits[k] {
        lemma_first_hit_is_least(hits, k + 1, j);
    }
}

proof fn lemma_first_of_type_is_least(results: Seq<SearchResult>, t: TranslationType, k: int, j: int)
    requires
        0 <= k <= j < results.len(),
        results[j].translation.translation_type == t,
    ensures
        first_of_type_from(results, t, k) matches Some(c) && k <= c <= j
            && results[c].translation.translation_type == t && forall|m: int|
            k <= m < c ==> #[trigger] results[m].translation.translation_type != t,
    decreases results.len() - k,
{
    if results[k].translation.translation_type != t {
        lemma_first_of_type_is_least(results, t, k + 1, j);
    }
}

proof fn lemma_no_hit(hits: Seq<bool>, k: int)
    requires
        0 <= k,
        forall|i: int| k <= i < hits.len() ==> !#[trigger] hits[i],
    ensures
        first_hit_from(hits, k) is None,
    decreases hits.len() - k,
{
    if k < hits.len() {
        lemma_no_hit(hits, k + 1);
    }
}

proof fn lemma_no_type(results: Seq<SearchResult>, t: TranslationType, k: int)
    requires
        0 <= k,
        forall|i: int| k <= i < results.len() ==> #[trigger] results[i].translation.translation_type != t,
    ensures
        first_of_type_from(results, t, k) is None,
    decreases results.len() - k,
{
    if k < results.len() {
        lemma_no_type(results, t, k + 1);
    }
}

/// Which result is chosen. When the title matched some results, the chosen
/// one matched and no result before it did. Else, when some results have
/// the wanted translation type, the chosen one has it and no result before
/// it does. Else the first result is chosen; and nothing is chosen only when
/// there is no result.
pub proof fn lemma_chosen_index_is_first(
    results: Seq<SearchResult>,
    hits: Option<Seq<bool>>,
    translation_type: Option<TranslationType>,
)
    requires
        hits matches Some(h) ==> h.len() == results.len(),
    ensures
        (hits matches Some(h) && exists|i: int| 0 <= i < h.len() && h[i]) ==> (chosen_index(
            results,
            hits,
            translation_type,
        ) matches Some(c) && 0 <= c < results.len() && hits->0[c] && forall|k: int|
            0 <= k < c ==> !#[trigger] hits->0[k]),
        (!(hits matches Some(h) && exists|i: int| 0 <= i < h.len() && h[i]) && (translation_type matches Some(t)
            && exists|i: int| 0 <= i < results.len() && results[i].translation.translation_type == t))
            ==> (chosen_index(results, hits, translation_type) matches Some(c) && 0 <= c
            < results.len() && results[c].translation.translation_type == translation_type->0
            && forall|k: int|
            0 <= k < c ==> #[trigger] results[k].translation.translation_type != translation_type->0),
        (!(hits matches Some(h) && exists|i: int| 0 <= i < h.len() && h[i]) && !(translation_type matches Some(t)
            && exists|i: int| 0 <= i < results.len() && results[i].translation.translation_type == t)
            && results.len() > 0) ==> chosen_index(results, hits, translation_type) == Some(0int),
        results.len() == 0 ==> chosen_index(results, hits, translation_type) is None,
{
    let some_hit = hits matches Some(h) && exists|i: int| 0 <= i < h.len() && h[i];
    if some_hit {
        let h = hits->0;
        let j = choose|i: int| 0 <= i < h.len() && h[i];
        lemma_first_hit_is_least(h, 0, j);
    } else {
        match hits {
            Some(h) => lemma_no_hit(h, 0),
            None => {},
        }
        match translation_type {
            Some(t) => {
                if exists|i: int| 0 <= i < results.len() && results[i].translation.translation_type == t {
                    let j = choose|i: int|
                        0 <= i < results.len() && results[i].translation.translation_type == t;
                    lemma_first_of_type_is_least(results, t, 0, j);
                } else {
                    lemma_no_type(results, t, 0);
                }
            },
            None => {},
        }
    }
    if results.len() == 0 {
        match hits {
            Some(h) => lemma_no_hit(h, 0),
            None => {},
        }
        match translation_type {
            Some(t) => lemma_no_type(results, t, 0),
            None => {},
        }
    }
}

/// Searching by title: when the title pattern `(?i).*{title}.*` matches
/// the translation title of some result, the chosen result's translation
/// title matches it and no result before it does, whatever the type asked.
pub proof fn lemma_title_search_picks_first_match(
    results: Seq<SearchResult>,
    title: Seq<char>,
    translation_type: Option<TranslationType>,
)
    requires
        exists|i: int|
            0 <= i < results.len() && regex_is_match(
                "(?i).*"@ + title + ".*"@,
                #[trigger] results[i].translation.title@,
            ),
    ensures
        chosen_index(results, Some(title_hits(results, title)), translation_type) matches Some(c)
            && 0 <= c < results.len() && regex_is_match("(?i).*"@ + title + ".*"@, results[c].translation.title@)
            && forall|k: int|
            0 <= k < c ==> !regex_is_match(
                "(?i).*"@ + title + ".*"@,
                #[trigger] results[k].translation.title@,
            ),
{
    let h = title_hits(results, title);
    let i = choose|i: int|
        0 <= i < results.len() && regex_is_match(
            "(?i).*"@ + title + ".*"@,
            #[trigger] results[i].translation.title@,
        );
    assert(h[i]);
    lemma_chosen_index_is_first(results, Some(h), translation_type);
    let c = chosen_index(results, Some(h), translation_type)->0;
    assert forall|k: int| 0 <= k < c implies !regex_is_match(
        "(?i).*"@ + title + ".*"@,
        #[trigger] results[k].translation.title@,
    ) by {
        assert(!h[k]);
    }
}

/// The error when there is no result at all.
pub open spec fn no_sources_error(e: ParserError) -> bool {
    e matches ParserError::KodikUtils(UtilsError::NotFound(m)) && m@ == "no video sources found"@
}

impl KodikApiResponse {
    /// Chooses a result, given for each result whether its translation
    /// title matched (`title_hits`, when a title was asked for): the first
    /// that matched, else the first of `translation_type`, else the first.
    #[verifier::loop_isolation(false)]
    pub fn choose_result(
        &self,
        title_hits: Option<&Vec<bool>>,
        translation_type: Option<TranslationType>,
    ) -> (r: Result<&SearchResult, ParserError>)
        requires
            title_hits matches Some(h) ==> h@.len() == self.results@.len(),
        ensures
            match chosen_index(
                self.results@,
                match title_hits {
                    Some(h) => Some(h@),
                    None => None,
                },
                translation_type,
            ) {
                Some(i) => r matches Ok(x) && *x == self.results@[i],
                None => r matches Err(e) && no_sources_error(e),
            },
    {
        let ghost hits = match title_hits {
            Some(h) => Some(h@),
            None => None,
        };
        proof {
            lemma_chosen_index_in_range(self.results@, hits, translation_type);
        }
        if let Some(h) = title_hits {
            let mut k: usize = 0;
            while k < h.len()
                invariant
                    h@.len() == self.results@.len(),
                    hits == Some(h@),
                    k <= h@.len(),
                    first_hit_from(h@, 0) == first_hit_from(h@, k as int),
                decreases h@.len() - k,
            {
                if h[k] {
                    return Ok(&self.results[k]);
                }
                k = k + 1;
            }
        }
        assert(match hits {
            Some(hh) => first_hit_from(hh, 0) is None,
            None => true,
        });
        if let Some(t) = translation_type {
            let mut k: usize = 0;
            while k < self.results.len()
                invariant
                    match hits {
                        Some(hh) => first_hit_from(hh, 0) is None,
                        None => true,
                    },
                    translation_type == Some(t),
                    k <= self.results@.len(),
                    first_of_type_from(self.results@, t, 0) == first_of_type_from(
                        self.results@,
                        t,
                        k as int,
                    ),
                decreases self.results@.len() - k,
            {
                if self.results[k].translation.translation_type == t {
                    return Ok(&self.results[k]);
                }
                k = k + 1;
            }
        }
        if self.results.len() > 0 {
            Ok(&self.results[0])
        } else {
            Err(
                ParserError::KodikUtils(
                    UtilsError::NotFound(String::from_str("no video sources found")),
                ),
            )
        }
    }

    /// Finds a result matching the given translation title or type: the
    /// first whose translation title matches `(?i).*{title}.*`, else the
    /// first of the given type, else the first result.
    pub fn find_result(
        &self,
        translation_title: Option<&str>,
        translation_type: Option<TranslationType>,
    ) -> (r: Result<&SearchResult, ParserError>)
        ensures
            match translation_title {
                Some(title) if !regex_compiles(title_pattern(title@)) => r matches Err(
                    ParserError::KodikUtils(UtilsError::Regex(e)),
                ) && regex_compile_error(title_pattern(title@)) == Some(e),
                _ => match chosen_index(
                    self.results@,
                    match translation_title {
                        Some(title) => Some(title_hits(self.results@, title@)),
                        None => None,
                    },
                    translation_type,
                ) {
                    Some(i) => r matches Ok(x) && *x == self.results@[i],
                    None => r matches Err(e) && no_sources_error(e),
                },
            },
    {
        match translation_title {
            Some(title) => {
                let mut source = String::from_str("(?i).*");
                source.append(title);
                source.append(".*");
                let pattern = match CompiledPattern::compile(source) {
                    Ok(p) => p,
                    Err(e) => {
                        return Err(ParserError::from(e));
                    },
                };
                let mut hits: Vec<bool> = Vec::new();
                let mut k: usize = 0;
                while k < self.results.len()
                    invariant
                        k <= self.results@.len(),
                        pattern.source() == title_pattern(title@),
                        hits@ == title_hits(self.results@, title@).take(k as int),
                    decreases self.results@.len() - k,
                {
                    let hit = pattern.is_match(self.results[k].translation.title.as_str());
                    hits.push(hit);
                    k = k + 1;
                }
                assert(hits@ =~= title_hits(self.results@, title@));
                self.choose_result(Some(&hits), translation_type)
            },
            None => self.choose_result(None, translation_type),
        }
    }
}

/// The search query for a Shikimori id: `shikimori_id={id}`.
pub fn shiki_query(shikimori_id: usize) -> (q: String)
    ensures
        q@ == "shikimori_id="@ + decimal(shikimori_id as nat),
{
    let mut q = String::from_str("shikimori_id=");
    let id = usize_to_decimal(shikimori_id);
    q.append(id.as_str());
    q
}

/// The search URL for `query`, with seasons and episodes.
pub fn search_url(token: &str, query: &str) -> (url: String)
    ensures
        url@ == "https://kodik-api.com/search?token="@ + token@ + "&"@ + query@
            + "&with_seasons=true&with_episodes=true"@,
{
    let mut url = String::from_str("https://kodik-api.com/search?token=");
    url.append(token);
    url.append("&");
    url.append(query);
    url.append("&with_seasons=true&with_episodes=true");
    url
}

} // verus!
