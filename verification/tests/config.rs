use std::time::Duration;

use talbot::config::{parse_update_offset, stored_text, update_offset_text, MAX_UPDATE_OFFSET_AGE_SECS};

#[test]
fn reads_only_recent_valid_telegram_update_offsets() {
    let recent = Duration::from_secs(60);
    assert_eq!(
        parse_update_offset("42\n", recent.as_secs(), recent.subsec_nanos()),
        Some(42)
    );
    assert_eq!(
        parse_update_offset("not-a-number", Duration::ZERO.as_secs(), Duration::ZERO.subsec_nanos()),
        None
    );
    let old = Duration::from_secs(MAX_UPDATE_OFFSET_AGE_SECS) + Duration::from_secs(1);
    assert_eq!(parse_update_offset("42", old.as_secs(), old.subsec_nanos()), None);
}

#[test]
fn the_age_limit_is_inclusive() {
    assert_eq!(parse_update_offset("7", MAX_UPDATE_OFFSET_AGE_SECS, 0), Some(7));
    assert_eq!(parse_update_offset("7", MAX_UPDATE_OFFSET_AGE_SECS, 1), None);
}

#[test]
fn offsets_parse_like_i64() {
    assert_eq!(parse_update_offset(" -12 ", 0, 0), Some(-12));
    assert_eq!(parse_update_offset("+5", 0, 0), Some(5));
    assert_eq!(parse_update_offset("9223372036854775807", 0, 0), Some(i64::MAX));
    assert_eq!(parse_update_offset("-9223372036854775808", 0, 0), Some(i64::MIN));
    assert_eq!(parse_update_offset("9223372036854775808", 0, 0), None);
    assert_eq!(parse_update_offset("-", 0, 0), None);
    assert_eq!(parse_update_offset("", 0, 0), None);
    assert_eq!(parse_update_offset("1 2", 0, 0), None);
}

#[test]
fn a_saved_offset_reads_back() {
    for offset in [0, 1, -1, 12, 987654321, i64::MAX, i64::MIN] {
        let text = update_offset_text(offset);
        assert_eq!(text, offset.to_string());
        assert_eq!(parse_update_offset(&text, 0, 0), Some(offset));
    }
}

#[test]
fn stored_values_are_trimmed_and_never_blank() {
    assert_eq!(stored_text("  123:abc \n"), Some("123:abc".to_string()));
    assert_eq!(stored_text(" \n\t"), None);
}
