use shorty::ident::{candidate_ids, identifier_from_draws};
use shorty::text::{char_count, is_url_safe};
use shorty::{
    default_max_uses, default_valid_for, ensure_http_prefix, replace_illegal_url_chars, Link,
    LinkConfig, Settings,
};

fn link(max_uses: i64, invocations: i64, created_at: i64, valid_for: i64) -> Link {
    Link {
        id: "abc".to_string(),
        redirect_to: "http://example.com".to_string(),
        max_uses,
        invocations,
        created_at,
        valid_for,
    }
}

fn settings() -> Settings {
    Settings {
        default_max_uses: 3,
        default_valid_for: 60_000,
        max_link_length: 100,
        max_custom_id_length: 8,
        public_url: "https://sho.rt".to_string(),
        id_length: 6,
        id_attempts: 4,
    }
}

#[test]
fn use_limit_reached_stays_expired() {
    assert!(!link(3, 2, 0, 0).is_expired_at(10));
    assert!(link(3, 3, 0, 0).is_expired_at(10));
    assert!(link(3, 4, 0, 0).is_expired_at(10));
    assert!(link(3, 1000, 0, 0).is_expired_at(10));
}

#[test]
fn time_limit_expires_after_valid_for() {
    let l = link(0, 0, 1000, 500);
    assert!(!l.is_expired_at(1000));
    assert!(!l.is_expired_at(1500));
    assert!(l.is_expired_at(1501));
    assert!(l.is_expired_at(100_000));
}

#[test]
fn time_limit_elapsed_far_apart_does_not_overflow() {
    let l = link(0, 0, i64::MIN, 1);
    assert!(l.is_expired_at(i64::MAX));
    let l = link(0, 0, i64::MAX, 1);
    assert!(!l.is_expired_at(i64::MIN));
}

#[test]
fn negative_sentinels_always_expire() {
    assert!(link(0, 0, 1000, -1).is_expired_at(1000));
    assert!(link(-1, 0, 1000, 0).is_expired_at(1000));
    assert!(link(-5, 0, 1000, 1_000_000).is_expired_at(0));
    assert!(link(-1, 0, 0, 0).is_expired());
}

#[test]
fn unlimited_never_expires() {
    let l = link(0, 1_000_000, 0, 0);
    assert!(!l.is_expired_at(0));
    assert!(!l.is_expired_at(i64::MAX));
    assert!(!l.is_expired());
}

#[test]
fn used_up_link_is_expired_by_clock_too() {
    assert!(link(1, 1, 0, 0).is_expired());
}

#[test]
fn formatted_joins_public_url_and_id() {
    assert_eq!(link(0, 0, 0, 0).formatted("https://sho.rt"), "https://sho.rt/abc");
}

#[test]
fn http_prefix_added_when_missing() {
    assert_eq!(ensure_http_prefix("example.com".to_string()), "http://example.com");
    assert_eq!(ensure_http_prefix("http://example.com".to_string()), "http://example.com");
    assert_eq!(ensure_http_prefix("https://example.com".to_string()), "https://example.com");
    assert_eq!(ensure_http_prefix("httpx".to_string()), "http://httpx");
}

#[test]
fn illegal_chars_replaced() {
    assert_eq!(replace_illegal_url_chars("abc"), "abc");
    assert_eq!(replace_illegal_url_chars("a b/c?d"), "a-b-c-d");
    assert_eq!(replace_illegal_url_chars("Z9_.~-"), "Z9_.~-");
    assert_eq!(replace_illegal_url_chars("héllo"), "h-llo");
    assert!(is_url_safe('q'));
    assert!(!is_url_safe('#'));
}

#[test]
fn char_count_counts_characters() {
    assert_eq!(char_count("héllo"), 5);
    assert_eq!(char_count(""), 0);
}

#[test]
fn defaults_fill_missing_limits() {
    let s = settings();
    assert_eq!(default_max_uses(&s), 3);
    assert_eq!(default_valid_for(&s), 60_000);
    let c = LinkConfig::with_defaults("a.b".to_string(), None, None, Some(7), &s);
    assert_eq!(c.max_uses, 3);
    assert_eq!(c.valid_for, 7);
    assert_eq!(c.custom_id, None);
    let c = LinkConfig::new("a.b".to_string(), Some("id".to_string()), 1, 2);
    assert_eq!(c.custom_id, Some("id".to_string()));
    assert_eq!((c.max_uses, c.valid_for), (1, 2));
}

#[test]
fn identifier_built_from_draws() {
    assert_eq!(identifier_from_draws(&vec![0, 25, 26, 51, 52, 61]), "azAZ09");
    assert_eq!(identifier_from_draws(&vec![62, 63, 62 * 1000 + 27]), "abB");
    assert_eq!(identifier_from_draws(&vec![u64::MAX]), "p");
    assert_eq!(identifier_from_draws(&vec![]), "");
}

#[test]
fn candidates_keep_full_rows_within_attempts() {
    let draws = vec![vec![0, 1], vec![2], vec![3, 4], vec![5, 6]];
    assert_eq!(candidate_ids(&draws, 2, 3), vec!["ab".to_string(), "de".to_string()]);
    assert_eq!(candidate_ids(&draws, 2, 4).len(), 3);
    assert_eq!(candidate_ids(&draws, 1, 10), vec!["c".to_string()]);
}
