use shorty::{LinkConfig, LinkError, LinkStore, Settings};

fn store() -> LinkStore {
    LinkStore::new(Settings {
        default_max_uses: 0,
        default_valid_for: 0,
        max_link_length: 30,
        max_custom_id_length: 5,
        public_url: "https://sho.rt".to_string(),
        id_length: 2,
        id_attempts: 3,
    })
}

fn config(link: &str, id: Option<&str>, max_uses: i64, valid_for: i64) -> LinkConfig {
    LinkConfig::new(link.to_string(), id.map(|s| s.to_string()), max_uses, valid_for)
}

fn no_draws() -> Vec<Vec<u64>> {
    Vec::new()
}

#[test]
fn single_use_link_resolves_once() {
    let mut s = store();
    let l = s
        .create_link_with_config_at(config("example.com", Some("abc"), 1, 0), &no_draws(), 1000)
        .unwrap();
    assert_eq!(l.id, "abc");
    assert_eq!(l.redirect_to, "http://example.com");
    assert_eq!(l.invocations, 0);
    assert_eq!(l.created_at, 1000);
    let first = s.get_at("abc", 1001).unwrap();
    assert_eq!(first.redirect_to, "http://example.com");
    assert_eq!(first.invocations, 0);
    assert!(!first.is_expired_at(1001));
    assert_eq!(s.peek("abc").unwrap().invocations, 1);
    assert!(s.get_at("abc", 1002).is_none());
    assert_eq!(s.peek("abc").unwrap().invocations, 2);
}

#[test]
fn custom_id_too_long_writes_nothing() {
    let mut s = store();
    let r = s.create_link_with_config_at(config("example.com", Some("abcdef"), 0, 0), &no_draws(), 0);
    assert_eq!(r.unwrap_err(), LinkError::CustomIdentifierTooLong);
    assert_eq!(s.len(), 0);
}

#[test]
fn empty_target_writes_nothing() {
    let mut s = store();
    let r = s.create_link_with_config_at(config("", Some("abc"), 0, 0), &no_draws(), 0);
    assert_eq!(r.unwrap_err(), LinkError::EmptyTarget);
    assert_eq!(s.len(), 0);
}

#[test]
fn target_too_long_is_refused() {
    let mut s = store();
    let long = format!("http://{}", "a".repeat(24));
    let r = s.create_link_with_config_at(config(&long, Some("abc"), 0, 0), &no_draws(), 0);
    assert_eq!(r.unwrap_err(), LinkError::TargetTooLong);
    let ok = format!("http://{}", "a".repeat(23));
    assert!(s.create_link_with_config_at(config(&ok, Some("abc"), 0, 0), &no_draws(), 0).is_ok());
}

#[test]
fn born_expired_link_is_refused() {
    let mut s = store();
    let r = s.create_link_with_config_at(config("a.b", Some("x"), 0, -1), &no_draws(), 0);
    assert_eq!(r.unwrap_err(), LinkError::ExpiredLinkProvided);
    let r = s.create_link_with_config_at(config("a.b", Some("x"), -1, 0), &no_draws(), 0);
    assert_eq!(r.unwrap_err(), LinkError::ExpiredLinkProvided);
    assert_eq!(s.len(), 0);
}

#[test]
fn stale_custom_id_is_replaced() {
    let mut s = store();
    assert!(s.create_link_with_config_at(config("a.b", Some("x"), 0, 10), &no_draws(), 0).is_ok());
    let second = s.create_link_with_config_at(config("c.d", Some("x"), 0, 0), &no_draws(), 20);
    let second = second.unwrap();
    assert_eq!(second.redirect_to, "http://c.d");
    assert_eq!(s.len(), 1);
    assert_eq!(s.peek("x").unwrap().redirect_to, "http://c.d");
}

#[test]
fn active_custom_id_conflicts_and_row_is_kept() {
    let mut s = store();
    s.create_link_with_config_at(config("a.b", Some("x"), 0, 0), &no_draws(), 0).unwrap();
    s.get_at("x", 5).unwrap();
    let r = s.create_link_with_config_at(config("c.d", Some("x"), 0, 0), &no_draws(), 10);
    assert_eq!(r.unwrap_err(), LinkError::IdentifierConflict);
    let kept = s.peek("x").unwrap();
    assert_eq!(kept.redirect_to, "http://a.b");
    assert_eq!(kept.invocations, 1);
    assert_eq!(kept.created_at, 0);
}

#[test]
fn replacement_resets_invocations() {
    let mut s = store();
    s.create_link_with_config_at(config("a.b", Some("x"), 2, 0), &no_draws(), 0).unwrap();
    s.get_at("x", 1).unwrap();
    s.get_at("x", 2).unwrap();
    assert!(s.get_at("x", 3).is_none());
    assert_eq!(s.peek("x").unwrap().invocations, 3);
    let l = s.create_link_with_config_at(config("c.d", Some("x"), 2, 0), &no_draws(), 4).unwrap();
    assert_eq!(l.invocations, 0);
    assert_eq!(s.peek("x").unwrap().invocations, 0);
    assert_eq!(s.len(), 1);
}

#[test]
fn expired_row_is_kept_but_never_returned() {
    let mut s = store();
    s.create_link_with_config_at(config("a.b", Some("x"), 0, 10), &no_draws(), 0).unwrap();
    assert!(s.get_at("x", 11).is_none());
    assert!(s.get_at("x", 12).is_none());
    assert_eq!(s.len(), 1);
    assert_eq!(s.peek("x").unwrap().invocations, 2);
    assert!(s.get_at("missing", 0).is_none());
}

#[test]
fn custom_id_is_sanitised() {
    let mut s = store();
    let l = s.create_link_with_config_at(config("a.b", Some("a b"), 0, 0), &no_draws(), 0).unwrap();
    assert_eq!(l.id, "a-b");
    assert!(s.get_at("a-b", 1).is_some());
}

#[test]
fn clean_counts_expired_then_nothing() {
    let mut s = store();
    s.create_link_with_config_at(config("a.b", Some("a"), 0, 10), &no_draws(), 0).unwrap();
    s.create_link_with_config_at(config("a.b", Some("b"), 0, 0), &no_draws(), 0).unwrap();
    s.create_link_with_config_at(config("a.b", Some("c"), 1, 0), &no_draws(), 0).unwrap();
    s.create_link_with_config_at(config("a.b", Some("d"), 0, 1000), &no_draws(), 0).unwrap();
    s.get_at("c", 1).unwrap();
    assert_eq!(s.clean_at(50), 2);
    assert_eq!(s.len(), 2);
    assert_eq!(s.clean_at(50), 0);
    let b = s.peek("b").unwrap();
    assert_eq!((b.max_uses, b.invocations, b.created_at, b.valid_for), (0, 0, 0, 0));
    let d = s.peek("d").unwrap();
    assert_eq!((d.max_uses, d.invocations, d.created_at, d.valid_for), (0, 0, 0, 1000));
    assert!(s.peek("a").is_none());
    assert!(s.peek("c").is_none());
}

#[test]
fn generated_id_skips_active_candidates() {
    let mut s = store();
    s.create_link_with_config_at(config("a.b", Some("k1"), 0, 0), &no_draws(), 0).unwrap();
    s.create_link_with_config_at(config("a.b", Some("k2"), 0, 5), &no_draws(), 0).unwrap();
    let cands = vec!["k1".to_string(), "k2".to_string(), "k3".to_string()];
    assert_eq!(s.allocate_id(&cands, 10).unwrap(), "k2");
    assert_eq!(s.allocate_id(&cands, 1).unwrap(), "k3");
    // 'k' is 10, '1' is 53: digits follow the 52 letters.
    let draws = vec![vec![10, 53], vec![10, 54], vec![10, 55]];
    let l = s.create_link_at("e.f".to_string(), &draws, 1).unwrap();
    assert_eq!(l.id, "k3");
    assert_eq!((l.max_uses, l.valid_for), (0, 0));
}

#[test]
fn generated_id_uses_alphabet_and_length() {
    let mut s = store();
    let draws = vec![vec![0, 1, 2], vec![7], vec![62 + 25, 26]];
    let l = s.create_link_at("e.f".to_string(), &draws, 0).unwrap();
    assert_eq!(l.id, "zA");
}

#[test]
fn generation_tries_at_most_the_configured_attempts() {
    let mut s = store();
    s.create_link_with_config_at(config("a.b", Some("aa"), 0, 0), &no_draws(), 0).unwrap();
    let draws = vec![vec![0, 0], vec![0, 0], vec![0, 0], vec![1, 1]];
    assert_eq!(
        s.create_link_at("e.f".to_string(), &draws, 1).unwrap_err(),
        LinkError::IdentifierGenerationExhausted
    );
    let draws = vec![vec![0, 0], vec![0, 0], vec![1, 1]];
    assert_eq!(s.create_link_at("e.f".to_string(), &draws, 1).unwrap().id, "bb");
}

#[test]
fn generation_exhausted_when_no_candidate_free() {
    let mut s = store();
    s.create_link_with_config_at(config("a.b", Some("k1"), 0, 0), &no_draws(), 0).unwrap();
    let draws = vec![vec![10, 53]];
    assert_eq!(s.create_link_at("e.f".to_string(), &draws, 1).unwrap_err(), LinkError::IdentifierGenerationExhausted);
    assert_eq!(s.create_link_at("e.f".to_string(), &no_draws(), 1).unwrap_err(), LinkError::IdentifierGenerationExhausted);
    assert_eq!(s.len(), 1);
}

#[test]
fn lengths_are_counted_in_bytes() {
    let mut s = store();
    let r = s.create_link_with_config_at(config("a.b", Some("h\u{e9}llo"), 0, 0), &no_draws(), 0);
    assert_eq!(r.unwrap_err(), LinkError::CustomIdentifierTooLong);
    let r = s.create_link_with_config_at(config(&format!("{}\u{e9}", "a".repeat(22)), Some("x"), 0, 0), &no_draws(), 0);
    assert_eq!(r.unwrap_err(), LinkError::TargetTooLong);
    let r = s.create_link_with_config_at(config(&format!("{}\u{e9}", "a".repeat(21)), Some("x"), 0, 0), &no_draws(), 0);
    assert!(r.is_ok());
}

#[test]
fn clock_operations_work_on_unlimited_links() {
    let mut s = store();
    let l = s.create_link("example.com".to_string(), &vec![vec![17, 53]]).unwrap();
    assert_eq!(l.id, "r1");
    assert!(shorty::Link::link_exists("r1", &s));
    assert!(!shorty::Link::link_exists("r2", &s));
    assert_eq!(s.get("r1").unwrap().invocations, 0);
    assert_eq!(s.peek("r1").unwrap().invocations, 1);
    s.create_link_with_config(config("a.b", Some("y"), 0, 0), &no_draws()).unwrap();
    assert_eq!(s.clean(), 0);
    assert_eq!(s.len(), 2);
    assert_eq!(l.formatted(&s.settings().public_url), "https://sho.rt/r1");
}

#[test]
fn prefixed_target_must_fit_maximum() {
    let mut s = store();
    let r = s.create_link_with_config_at(config(&"a".repeat(24), Some("abc"), 0, 0), &no_draws(), 0);
    assert_eq!(r.unwrap_err(), LinkError::TargetTooLong);
    let l = s.create_link_with_config_at(config(&"a".repeat(23), Some("abc"), 0, 0), &no_draws(), 0).unwrap();
    assert_eq!(l.redirect_to.chars().count(), 30);
    let long = format!("https://{}", "a".repeat(22));
    let l = s.create_link_with_config_at(config(&long, Some("abd"), 0, 0), &no_draws(), 0).unwrap();
    assert_eq!(l.redirect_to, long);
}

#[test]
fn restore_takes_only_valid_free_rows() {
    let mut s = store();
    let row = |id: &str, to: &str| shorty::Link {
        id: id.to_string(),
        redirect_to: to.to_string(),
        max_uses: 0,
        invocations: 4,
        created_at: 7,
        valid_for: 0,
    };
    assert!(s.restore(row("a", "http://a.b")));
    assert!(!s.restore(row("a", "http://c.d")));
    assert!(!s.restore(row("b", "")));
    assert!(!s.restore(row("c", "a.b")));
    assert!(!s.restore(row("d", &format!("https://{}", "a".repeat(23)))));
    assert_eq!(s.len(), 1);
    assert_eq!(s.peek("a").unwrap().invocations, 4);
    assert_eq!(s.get_at("a", 8).unwrap().invocations, 4);
}

#[test]
fn remove_takes_out_one_row() {
    let mut s = store();
    s.create_link_with_config_at(config("a.b", Some("x"), 0, 0), &no_draws(), 0).unwrap();
    s.create_link_with_config_at(config("c.d", Some("y"), 0, 0), &no_draws(), 0).unwrap();
    assert_eq!(s.remove("x").unwrap().redirect_to, "http://a.b");
    assert!(s.remove("x").is_none());
    assert_eq!(s.len(), 1);
    assert!(s.peek("y").is_some());
}
