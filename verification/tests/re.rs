use kodik::shiki::parser::extract_id;
use kodik::utils::error::UtilsError;
use kodik::utils::re::{extract_anime_id, extract_domain};

#[test]
fn getting_domain() {
    let url_with_scheme = "https://kodikplayer.com/video/91873/060cab655974d46835b3f4405807acc2/720p";
    let url_without_scheme = "kodikplayer.com/video/91873/060cab655974d46835b3f4405807acc2/720p";

    assert_eq!("kodikplayer.com", extract_domain(url_with_scheme).unwrap());
    assert_eq!("kodikplayer.com", extract_domain(url_without_scheme).unwrap());
}

#[test]
fn extract_anime_id_shiki_test() {
    let url = "https://shikimori.io/animes/431-howl-no-ugoku-shiro";
    let expected = "431";

    let id = extract_anime_id(url).unwrap();
    assert_eq!(id, expected);
}

#[test]
fn extract_anime_id_shiki_alt_test() {
    let urls: [&str; 3] = [
        "https://shikimori.io/animes/z199-sen-to-chihiro-no-kamikakushi",
        "https://shikimori.io/animes/y28851-koe-no-katachi",
        "https://shikimori.io/animes/x16782-kotonoha-no-niwa",
    ];
    let expected: [&str; 3] = ["199", "28851", "16782"];

    for (url, expected) in urls.into_iter().zip(expected) {
        let id = extract_anime_id(url).unwrap();
        assert_eq!(id, expected);
    }
}

#[test]
fn extract_anime_id_mal_test() {
    let url = "https://myanimelist.net/anime/199/Sen_to_Chihiro_no_Kamikakushi";
    let expected = "199";

    let id = extract_anime_id(url).unwrap();
    assert_eq!(id, expected);
}

#[test]
fn domain_is_leftmost_and_longest() {
    assert_eq!(extract_domain("see a.bc and x.yz.com").unwrap(), "a.bc");
    assert_eq!(extract_domain("http://sub.shikimori.one:8080/x").unwrap(), "sub.shikimori.one");
    assert_eq!(extract_domain("https://kodik.info").unwrap(), "kodik.info");
}

#[test]
fn domain_needs_two_character_last_label() {
    assert_eq!(extract_domain("a.b.cd").unwrap(), "a.b.cd");
    assert_eq!(extract_domain("ab.c/x.yz").unwrap(), "x.yz");
}

#[test]
fn domain_skips_upper_case_and_bad_labels() {
    assert_eq!(extract_domain("Example.COM then ok.ru").unwrap(), "ok.ru");
    assert_eq!(extract_domain("-a.bc").unwrap(), "a.bc");
}

#[test]
fn domain_missing_is_regex_error() {
    match extract_domain("https://localhost/") {
        Err(UtilsError::Regex(e)) => assert_eq!(e.to_string(), "no valid domain found in 'https://localhost/'"),
        other => panic!("unexpected {:?}", other),
    }
    assert!(matches!(extract_domain("localhost"), Err(UtilsError::Regex(_))));
    assert!(matches!(extract_domain(""), Err(UtilsError::Regex(_))));
}

#[test]
fn anime_id_terminators() {
    assert_eq!(extract_anime_id("/animes/12").unwrap(), "12");
    assert_eq!(extract_anime_id("/anime/12/").unwrap(), "12");
    assert!(extract_anime_id("/animes/12x").is_err());
    assert!(extract_anime_id("/animes/ab12").is_err());
    assert_eq!(extract_anime_id("/animes/ab12 /animes/7-x").unwrap(), "7");
}

#[test]
fn anime_id_missing_is_regex_match_error() {
    match extract_anime_id("https://shikimori.io/mangas/1") {
        Err(UtilsError::RegexMatch(m)) => assert_eq!(m, "id not found in 'https://shikimori.io/mangas/1'"),
        other => panic!("unexpected {:?}", other),
    }
}

#[test]
fn extract_id_matches_extract_anime_id() {
    let url = "https://shikimori.one/animes/z33-berserk";
    assert_eq!(extract_id(url).unwrap(), "33");
    assert!(extract_id("https://shikimori.one/").is_err());
}
