use telemetry_core::tool::{base_trim, blacklist_detach, contains_str, hash_set_merge, random_str};

#[test]
fn it_works() {
    assert_eq!(base_trim("1000XXXUSDT"), "XXXUSDT");
    assert_eq!(base_trim("100XXXUSDT"), "100XXXUSDT");
    assert_eq!(base_trim("10000XXXUSDT"), "XXXUSDT");
    assert_eq!(base_trim("1000000XXXUSDT"), "XXXUSDT");
    assert_eq!(base_trim("1MXXXUSDT"), "XXXUSDT");
    assert_eq!(base_trim("1M10000XXXUSDT"), "XXXUSDT");
    assert_eq!(base_trim("1M0000XXXUSDT"), "XXXUSDT");
    assert_eq!(base_trim("1M0000XXXUSDT10000"), "XXXUSDT");
    assert_eq!(base_trim("0XXXUSDT10000"), "0XXXUSDT");
}

#[test]
fn base_trim_leaves_plain_symbols_alone() {
    assert_eq!(base_trim("BTCUSDT"), "BTCUSDT");
    assert_eq!(base_trim(""), "");
}

#[test]
fn contains_str_finds_the_marker() {
    assert!(contains_str("connection timed out after 30s", "timed out"));
    assert!(contains_str("timed out", "timed out"));
    assert!(!contains_str("connection refused", "timed out"));
    assert!(!contains_str("timed ou", "timed out"));
    assert!(contains_str("anything", ""));
}

#[test]
fn blacklist_detach_cleans_and_dedups() {
    let entries = blacklist_detach(" \"BTC\" , ETH ,BTC, \" DOGE \" ");
    assert_eq!(entries.len(), 3);
    assert!(entries.contains(&"BTC".to_string()));
    assert!(entries.contains(&"ETH".to_string()));
    assert!(entries.contains(&"DOGE".to_string()));

    let single = blacklist_detach("SOL");
    assert_eq!(single, vec!["SOL".to_string()]);

    // No commas, all blanks: one empty entry.
    let empty = blacklist_detach("   ");
    assert_eq!(empty, vec!["".to_string()]);
}

#[test]
fn hash_set_merge_keeps_sets_distinct() {
    let mut target = vec!["a".to_string(), "b".to_string()];
    let source = vec!["b".to_string(), "c".to_string(), "c".to_string()];
    hash_set_merge(&mut target, source);
    assert_eq!(target.len(), 3);
    assert!(target.contains(&"a".to_string()));
    assert!(target.contains(&"b".to_string()));
    assert!(target.contains(&"c".to_string()));
}

#[test]
fn random_str_draws_three_letters() {
    for _ in 0..200 {
        let tag = random_str();
        assert_eq!(tag.chars().count(), 3);
        for c in tag.chars() {
            assert!(('A'..='Y').contains(&c));
        }
    }
}

#[test]
fn random() {
    let start = std::time::Instant::now();
    for _ in 0..1000000 {}
    println!("{}", start.elapsed().as_micros());
}
