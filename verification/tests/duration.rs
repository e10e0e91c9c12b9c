use overpower::duration::{secs_from_bytes, ParseDurationError, RunDuration};
use overpower::duration_from_str_secs;

#[test]
fn reads_plain_seconds() {
    assert_eq!(duration_from_str_secs("5"), Ok(RunDuration { secs: 5 }));
    assert_eq!(duration_from_str_secs("0"), Ok(RunDuration { secs: 0 }));
    assert_eq!(duration_from_str_secs("120"), Ok(RunDuration { secs: 120 }));
}

#[test]
fn reads_leading_plus_and_zeros() {
    assert_eq!(duration_from_str_secs("+5"), Ok(RunDuration { secs: 5 }));
    assert_eq!(duration_from_str_secs("007"), Ok(RunDuration { secs: 7 }));
    assert_eq!(duration_from_str_secs("+000"), Ok(RunDuration { secs: 0 }));
}

#[test]
fn reads_largest_u64() {
    assert_eq!(
        duration_from_str_secs("18446744073709551615"),
        Ok(RunDuration { secs: u64::MAX })
    );
    assert_eq!(
        duration_from_str_secs("00018446744073709551615"),
        Ok(RunDuration { secs: u64::MAX })
    );
}

#[test]
fn empty_text_is_empty() {
    assert_eq!(duration_from_str_secs(""), Err(ParseDurationError::Empty));
    assert_eq!(secs_from_bytes(b""), Err(ParseDurationError::Empty));
}

#[test]
fn stray_bytes_are_invalid_digits() {
    for text in ["+", "-", "-1", "+-1", "++1", "1+", "12a", "a12", " 5", "5 ", "1_000", "1.5", "0x10", "５"] {
        assert_eq!(
            duration_from_str_secs(text),
            Err(ParseDurationError::InvalidDigit),
            "{:?}",
            text
        );
    }
}

#[test]
fn too_large_numbers_overflow() {
    assert_eq!(
        duration_from_str_secs("18446744073709551616"),
        Err(ParseDurationError::PosOverflow)
    );
    assert_eq!(
        duration_from_str_secs("+99999999999999999999"),
        Err(ParseDurationError::PosOverflow)
    );
    assert_eq!(
        duration_from_str_secs("184467440737095516150"),
        Err(ParseDurationError::PosOverflow)
    );
}

#[test]
fn first_fault_from_the_left_decides() {
    // The number has outgrown u64 before the stray byte is reached.
    assert_eq!(
        duration_from_str_secs("99999999999999999999x"),
        Err(ParseDurationError::PosOverflow)
    );
    // The stray byte comes first.
    assert_eq!(
        duration_from_str_secs("9x9999999999999999999"),
        Err(ParseDurationError::InvalidDigit)
    );
    assert_eq!(
        duration_from_str_secs("1844674407370955161x"),
        Err(ParseDurationError::InvalidDigit)
    );
}

#[test]
fn agrees_with_the_standard_integer_parser() {
    let texts = [
        "", "+", "-", "0", "1", "+1", "-1", "42", "0042", "4 2", "18446744073709551615",
        "18446744073709551616", "99999999999999999999x", "x99999999999999999999", "1e3", "\t1",
        "1\n", "+0", "++0", "٣",
    ];
    for text in texts {
        let ours = duration_from_str_secs(text).map(|d| d.secs).ok();
        let theirs = text.parse::<u64>().ok();
        assert_eq!(ours, theirs, "{:?}", text);
    }
}

#[test]
fn run_duration_in_nanoseconds() {
    assert_eq!(RunDuration::from_secs(0).as_nanos(), 0);
    assert_eq!(RunDuration::from_secs(2).as_nanos(), 2_000_000_000);
    assert_eq!(
        RunDuration::from_secs(u64::MAX).as_nanos(),
        18_446_744_073_709_551_615_000_000_000u128
    );
    assert_eq!(RunDuration::from_secs(3).secs, 3);
}
