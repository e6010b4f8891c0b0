use kodik::shiki::anime::anime_api_url;
use kodik::shiki::api_v1::{whoami_url, ShikiApiAnimes, ShikiApiUsersWhoami};
use kodik::shiki::api_v2::{user_rate_url, user_rates_url, ShikiApiUserRates, UserRatesTargetType};
use kodik::shiki::shared::{AnimeKind, AnimeStatus, UserRate, UserRateStatus};
use kodik::text::{trim, usize_to_decimal};
use kodik::utils::api_url;

#[test]
fn api_url_joins_host_and_path() {
    assert_eq!(api_url("shikimori.io", "/api/animes/1"), "https://shikimori.io/api/animes/1");
    assert_eq!(api_url("", ""), "https://");
}

#[test]
fn endpoint_urls() {
    assert_eq!(anime_api_url("shikimori.one", "33"), "https://shikimori.one/api/animes/33");
    assert_eq!(whoami_url("shikimori.one"), "https://shikimori.one/api/users/whoami");
    assert_eq!(user_rates_url("shikimori.one"), "https://shikimori.one/api/v2/user_rates");
    assert_eq!(user_rate_url("shikimori.one", 9001), "https://shikimori.one/api/v2/user_rates/9001");
}

#[test]
fn user_rates_request_holds_its_fields() {
    let req = ShikiApiUserRates::new(3, 1, UserRateStatus::Watching, 33, UserRatesTargetType::Anime, 7);
    let rate = req.user_rate();
    assert_eq!(rate.episodes, 3);
    assert_eq!(rate.rewatches, 1);
    assert_eq!(rate.status, UserRateStatus::Watching);
    assert_eq!(rate.target_id, 33);
    assert_eq!(rate.target_type, UserRatesTargetType::Anime);
    assert_eq!(rate.user_id, 7);
}

#[test]
fn user_rate_episodes() {
    let mut a = ShikiApiAnimes {
        id: 33,
        name: "Berserk".to_string(),
        kind: AnimeKind::Tv,
        status: AnimeStatus::Released,
        episodes: 25,
        episodes_aired: 25,
        franchise: Some("berserk".to_string()),
        user_rate: None,
    };
    assert_eq!(a.user_rate_episodes(), None);
    a.user_rate = Some(UserRate { id: 1, episodes: 12, rewatches: 0, status: UserRateStatus::Watching });
    assert_eq!(a.user_rate_episodes(), Some(12));
    let who = ShikiApiUsersWhoami { id: None };
    assert_eq!(who.id, None);
}

#[test]
fn decimal_rendering() {
    for n in [0usize, 9, 10, 99, 100, 12345, usize::MAX] {
        assert_eq!(usize_to_decimal(n), n.to_string());
    }
}

#[test]
fn trim_matches_std() {
    for s in ["", "  ", " a b ", "\u{3000}x\u{2003}", "\t\nvoice\r\n", "no-space"] {
        assert_eq!(trim(s), s.trim());
    }
}
