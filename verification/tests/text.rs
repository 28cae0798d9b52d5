use sipcord_bridge::services::ban::BanCheckResult;
use sipcord_bridge::services::ban::ClearResult;
use sipcord_bridge::text::decimal_text;
use sipcord_bridge::text::hex16_text;
use sipcord_bridge::text::join;
use sipcord_bridge::text::parse_number;
use sipcord_bridge::text::same_text;
use sipcord_bridge::text::signed_decimal_text;

#[test]
fn numbers_are_written_as_the_formatter_writes_them() {
    for n in [0u64, 7, 10, 99, 100, 1_000_000_007, u64::MAX] {
        assert_eq!(decimal_text(n), n.to_string());
        assert_eq!(hex16_text(n), format!("{n:016x}"));
    }
    for n in [0i32, -1, 10, -10, i32::MAX, i32::MIN] {
        assert_eq!(signed_decimal_text(n), n.to_string());
    }
}

#[test]
fn written_numbers_read_back() {
    for n in [0u64, 9, 10, 12345, u64::MAX] {
        assert_eq!(parse_number(&decimal_text(n)), Some(n));
    }
}

#[test]
fn numbers_are_read_as_the_parser_reads_them() {
    for text in [
        "", "+", "-", "+5", "++5", "-0", "007", " 1", "1 ", "1_0", "0x1", "99999999999999999999",
        "18446744073709551615", "18446744073709551616", "000000000000000000000000042",
    ] {
        assert_eq!(parse_number(text), text.parse::<u64>().ok());
    }
}

#[test]
fn texts_are_compared_and_joined() {
    assert!(same_text("é", "é"));
    assert!(!same_text("jpg", "jpeg"));
    assert_eq!(join("a—", "b"), "a—b");
}

#[test]
fn ban_results_are_plain_records() {
    let result = BanCheckResult {
        offense_level: 2,
        is_banned: true,
        is_permanent: false,
        timeout_secs: 600,
        should_log: true,
    };
    let copy = result;
    assert_eq!(copy.offense_level, result.offense_level);
    assert_eq!(copy.timeout_secs, 600);
    let cleared = ClearResult {
        bans_cleared: 1,
        registers_cleared: 2,
    };
    assert_eq!(cleared.bans_cleared + cleared.registers_cleared, 3);
}
