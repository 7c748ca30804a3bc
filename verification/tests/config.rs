use sel_core::config::Config;

fn config(whitelist: Vec<String>) -> Config {
    Config {
        approval_user_id: String::from("42"),
        whitelist_channel_ids: whitelist,
        memory_recall_limit: 10,
        recent_context_limit: 20,
        decay_rate_per_hour: 50_000,
    }
}

#[test]
fn empty_whitelist_allows_every_channel() {
    let c = config(Vec::new());
    assert!(c.allows_channel("1"));
    assert!(c.allows_channel(""));
}

#[test]
fn whitelist_allows_only_listed_channels() {
    let c = config(vec![String::from("10"), String::from("20")]);
    assert!(c.allows_channel("10"));
    assert!(c.allows_channel("20"));
    assert!(!c.allows_channel("30"));
    assert!(!c.allows_channel("1"));
    assert!(!c.allows_channel(""));
}
