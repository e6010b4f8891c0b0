use kodik::utils::client::{
    after_response, backoff_secs, browser_headers, build_headers, random_user_agent, RetryStep,
    MAX_ATTEMPTS, TOO_MANY_REQUESTS,
};
use kodik::utils::error::UtilsError;
use reqwest::header::HeaderValue;

#[test]
fn random_agent_is_not_always_same() {
    let a1 = random_user_agent();
    let a2 = random_user_agent();
    assert_ne!(a1, a2);
}

#[test]
fn random_agent_is_not_empty() {
    assert!(!random_user_agent().is_empty());
}

#[test]
fn backoff_doubles() {
    let waits: Vec<u64> = (1..=MAX_ATTEMPTS).map(backoff_secs).collect();
    assert_eq!(waits, vec![2, 4, 8, 16, 32]);
    assert_eq!(backoff_secs(0), 1);
}

#[test]
fn retries_only_too_many_requests() {
    assert_eq!(after_response(1, TOO_MANY_REQUESTS), RetryStep::Retry { wait_secs: 2 });
    assert_eq!(after_response(5, TOO_MANY_REQUESTS), RetryStep::Retry { wait_secs: 32 });
    assert_eq!(after_response(6, TOO_MANY_REQUESTS), RetryStep::Return);
    assert_eq!(after_response(1, 200), RetryStep::Return);
    assert_eq!(after_response(3, 500), RetryStep::Return);
}

#[test]
fn headers_are_browser_like() {
    let h = browser_headers("UA");
    assert_eq!(
        h,
        vec![
            ("user-agent", "UA"),
            ("accept-language", "en-US,en;q=0.9"),
            ("dnt", "1"),
            ("sec-gpc", "1"),
            ("upgrade-insecure-requests", "1"),
            ("sec-fetch-dest", "document"),
            ("sec-fetch-mode", "navigate"),
        ]
    );
}

#[test]
fn random_agent_is_a_browser_header_value() {
    for _ in 0..200 {
        let ua = random_user_agent();
        assert!(ua.starts_with("Mozilla/5.0 ("), "{ua}");
        assert!(ua.chars().all(|c| (' '..='~').contains(&c)), "{ua}");
    }
}

#[test]
fn random_agent_is_a_builtin_agent() {
    let agents = ua_generator::ua::all_static_agents();
    assert_eq!(agents.len(), 98);
    for _ in 0..200 {
        assert!(agents.contains(&random_user_agent()));
    }
    assert_eq!(kodik::utils::client::pick_user_agent(agents, 3), agents[3]);
}

#[test]
fn backoff_is_total_and_capped() {
    assert_eq!(backoff_secs(6), 60);
    assert_eq!(backoff_secs(255), 60);
    assert_eq!(after_response(7, TOO_MANY_REQUESTS), RetryStep::Return);
}

#[test]
fn request_headers_carry_host_and_cookie() {
    let h = build_headers("shikimori.io", None).unwrap();
    assert_eq!(h.host, "shikimori.io");
    assert_eq!(h.cookie, None);
    assert_eq!(h.common.len(), 7);
    assert_eq!(h.common[0].0, "user-agent");
    assert!(h.common[0].1.starts_with("Mozilla/5.0 ("));
    assert_eq!(&h.common[1..], &browser_headers("UA")[1..]);

    let h = build_headers("kodik.info:8080", Some("sid=abc; theme=dark")).unwrap();
    assert_eq!(h.host, "kodik.info:8080");
    assert_eq!(h.cookie, Some("sid=abc; theme=dark"));
}

#[test]
fn request_headers_refuse_control_characters() {
    assert!(matches!(build_headers("bad\nhost", None), Err(UtilsError::InvalidHeaderValue(_))));
    assert!(matches!(build_headers("ok", Some("a\u{7f}b")), Err(UtilsError::InvalidHeaderValue(_))));
    assert!(matches!(build_headers("ok\r", Some("fine")), Err(UtilsError::InvalidHeaderValue(_))));
    assert!(build_headers("tab\there", Some("ünïcode")).is_ok());
    assert!(build_headers("", Some("")).is_ok());
}

#[test]
fn request_headers_agree_with_header_value() {
    for c in (0u32..0x200).filter_map(char::from_u32) {
        let text = format!("a{c}b");
        assert_eq!(
            build_headers(&text, None).is_ok(),
            HeaderValue::from_str(&text).is_ok(),
            "{c:?}"
        );
        assert_eq!(
            build_headers("host", Some(&text)).is_ok(),
            HeaderValue::from_str(&text).is_ok(),
            "{c:?}"
        );
    }
}
