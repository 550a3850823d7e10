use telemetry_core::relay::{split_message, RelayFilter, SendType, DEFAULT_SUPPRESSION_THRESHOLD};

fn marker_msg() -> SendType {
    SendType::Msg("upstream request timed out".to_string())
}

#[test]
fn burst_of_250_marker_texts_forwards_two() {
    let mut filter = RelayFilter::standard();
    assert_eq!(DEFAULT_SUPPRESSION_THRESHOLD, 100);

    let mut forwarded_at = Vec::new();
    for i in 1..=250u64 {
        if filter.should_forward(&marker_msg()) {
            forwarded_at.push(i);
        }
    }
    // Exactly floor(250 / 100) = 2 got through: the 100th and the 200th.
    assert_eq!(forwarded_at, vec![100, 200]);
    // The partial tail of the burst stays counted for the next one.
    assert_eq!(filter.suppressed, 50);
}

#[test]
fn non_marker_messages_always_go_through() {
    let mut filter = RelayFilter::new(3);
    assert!(filter.should_forward(&SendType::Msg("disk almost full".to_string())));
    assert!(filter.should_forward(&SendType::File("/tmp/report.json".to_string())));
    assert!(filter.should_forward(&SendType::FileWarpMsg((
        "/tmp/dump.bin".to_string(),
        Some("dump".to_string()),
    ))));
    assert!(filter.should_forward(&SendType::FilesWarpMsg(
        vec!["/a".to_string(), "/b".to_string()],
        None,
    )));
    // None of them touched the suppression counter.
    assert_eq!(filter.suppressed, 0);
}

#[test]
fn file_passes_even_amid_a_marker_flood() {
    let mut filter = RelayFilter::new(5);
    for _ in 0..3 {
        assert!(!filter.should_forward(&marker_msg()));
    }
    // A file message is always attempted, and leaves the counter alone.
    assert!(filter.should_forward(&SendType::File("/tmp/f".to_string())));
    assert_eq!(filter.suppressed, 3);
    // The flood keeps counting where it left off.
    assert!(!filter.should_forward(&marker_msg()));
    assert!(filter.should_forward(&marker_msg()));
    assert_eq!(filter.suppressed, 0);
}

#[test]
fn split_message_chunks_by_character_count() {
    let parts = split_message("abcdefgh", 3);
    assert_eq!(parts, vec!["abc", "def", "gh"]);

    let parts = split_message("", 4000);
    assert!(parts.is_empty());

    let parts = split_message("abcdef", 3);
    assert_eq!(parts, vec!["abc", "def"]);

    // Characters, not bytes.
    let parts = split_message("ééééé", 2);
    assert_eq!(parts, vec!["éé", "éé", "é"]);
}
