use kodik::utils::cookies::parse_netscape_line;
use kodik::utils::error::UtilsError;

#[test]
fn comments_and_blank_lines_give_nothing() {
    assert!(parse_netscape_line("# Netscape HTTP Cookie File\n").unwrap().is_none());
    assert!(parse_netscape_line("   \n").unwrap().is_none());
    assert!(parse_netscape_line("").unwrap().is_none());
}

#[test]
fn cookie_line_gives_cookie_and_url() {
    let c = parse_netscape_line(".shikimori.one\tTRUE\t/\tTRUE\t0\t_session\tabc\tdef\n")
        .unwrap()
        .unwrap();
    assert_eq!(c.cookie, "_session=abc\tdef; Domain=.shikimori.one");
    assert_eq!(c.url.as_url().as_str(), "https://shikimori.one/");
}

#[test]
fn missing_fields() {
    match parse_netscape_line("a\tb\tc\td\te") {
        Err(UtilsError::NotFound(m)) => assert_eq!(m, "malformed cookie: missing name"),
        other => panic!("unexpected {:?}", other),
    }
    match parse_netscape_line("a\tb\tc\td\te\tname") {
        Err(UtilsError::NotFound(m)) => assert_eq!(m, "malformed cookie: missing value"),
        other => panic!("unexpected {:?}", other),
    }
    match parse_netscape_line("a\tb\tc\td\te\tname\t  ") {
        Err(UtilsError::NotFound(m)) => assert_eq!(m, "malformed cookie: missing value"),
        other => panic!("unexpected {:?}", other),
    }
}

#[test]
fn invalid_domain() {
    match parse_netscape_line("..\tb\tc\td\te\tname\tvalue") {
        Err(UtilsError::NotFound(m)) => assert!(m.starts_with("invalid cookie domain '': "), "{m}"),
        other => panic!("unexpected {:?}", other),
    }
}
