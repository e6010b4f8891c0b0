use kodik::parser::api::{
    search_url, shiki_query, KodikApiResponse, SearchResult, Translation, TranslationType,
};
use kodik::parser::error::ParserError;
use kodik::utils::error::UtilsError;

fn result(link: &str, title: &str, translation_type: TranslationType) -> SearchResult {
    SearchResult {
        link: link.to_string(),
        title: "Berserk".to_string(),
        translation: Translation { title: title.to_string(), translation_type },
        seasons: None,
    }
}

fn response() -> KodikApiResponse {
    KodikApiResponse {
        results: vec![
            result("a", "AniLibria", TranslationType::Voice),
            result("b", "Crunchyroll Subs", TranslationType::Subtitles),
            result("c", "AniDUB", TranslationType::Voice),
        ],
    }
}

#[test]
fn find_by_title_ignores_case() {
    let r = response();
    assert_eq!(r.find_result(Some("anidub"), None).unwrap().link, "c");
    assert_eq!(r.find_result(Some("SUBS"), Some(TranslationType::Voice)).unwrap().link, "b");
}

#[test]
fn find_falls_back_to_type_then_first() {
    let r = response();
    assert_eq!(r.find_result(Some("nothing"), Some(TranslationType::Subtitles)).unwrap().link, "b");
    assert_eq!(r.find_result(None, Some(TranslationType::Subtitles)).unwrap().link, "b");
    assert_eq!(r.find_result(Some("nothing"), None).unwrap().link, "a");
    assert_eq!(r.find_result(None, None).unwrap().link, "a");
}

#[test]
fn find_title_is_a_pattern() {
    let r = response();
    assert_eq!(r.find_result(Some("Ani(DUB|X)"), None).unwrap().link, "c");
    match r.find_result(Some("(unclosed"), None) {
        Err(ParserError::KodikUtils(UtilsError::Regex(e))) => {
            assert_eq!(Some(e), lazy_regex::Regex::new("(?i).*(unclosed.*").err());
        }
        other => panic!("unexpected {:?}", other),
    }
}

#[test]
fn find_in_empty_results_is_not_found() {
    let r = KodikApiResponse { results: vec![] };
    match r.find_result(Some("x"), Some(TranslationType::Voice)) {
        Err(ParserError::KodikUtils(UtilsError::NotFound(m))) => assert_eq!(m, "no video sources found"),
        other => panic!("unexpected {:?}", other),
    }
}

#[test]
fn choose_result_uses_given_hits() {
    let r = response();
    assert_eq!(r.choose_result(Some(&vec![false, false, true]), None).unwrap().link, "c");
    assert_eq!(
        r.choose_result(Some(&vec![false, false, false]), Some(TranslationType::Subtitles)).unwrap().link,
        "b"
    );
    assert_eq!(r.choose_result(None, None).unwrap().link, "a");
    let empty = KodikApiResponse { results: vec![] };
    assert!(empty.choose_result(Some(&vec![]), None).is_err());
}

#[test]
fn translation_type_names_round_trip() {
    for t in [TranslationType::Voice, TranslationType::Subtitles] {
        assert_eq!(TranslationType::from_str(t.as_str()).unwrap(), t);
    }
    assert_eq!(TranslationType::Voice.as_str(), "voice");
    assert_eq!(TranslationType::Subtitles.as_str(), "subtitles");
    assert_eq!(TranslationType::from_str("  subtitles\n").unwrap(), TranslationType::Subtitles);
}

#[test]
fn translation_type_rejects_other_names() {
    match TranslationType::from_str(" Voice ") {
        Err(ParserError::InvalidTranslationType(v)) => assert_eq!(v, "Voice"),
        other => panic!("unexpected {:?}", other),
    }
    assert!(TranslationType::from_str("").is_err());
}

#[test]
fn search_urls() {
    assert_eq!(shiki_query(431), "shikimori_id=431");
    assert_eq!(shiki_query(0), "shikimori_id=0");
    assert_eq!(
        search_url("TOKEN", "shikimori_id=431"),
        "https://kodik-api.com/search?token=TOKEN&shikimori_id=431&with_seasons=true&with_episodes=true"
    );
}
