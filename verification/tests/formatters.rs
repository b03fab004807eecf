use haas_effect::custom_formatters::{ms_then_s_format, split_ms_then_s, Magnitude, TimeFormat, TimeUnit};

#[test]
fn milliseconds_with_space() {
    assert_eq!(split_ms_then_s("12.5 ms"), Some(("12.5", TimeUnit::Milliseconds)));
}

#[test]
fn upper_case_milliseconds_and_trailing_white_space() {
    assert_eq!(split_ms_then_s("7MS \t\n"), Some(("7", TimeUnit::Milliseconds)));
}

#[test]
fn mixed_case_ms_counts_as_seconds() {
    assert_eq!(split_ms_then_s("3 mS"), Some(("3 m", TimeUnit::Seconds)));
}

#[test]
fn seconds_suffix() {
    assert_eq!(split_ms_then_s("1.25 s"), Some(("1.25", TimeUnit::Seconds)));
    assert_eq!(split_ms_then_s("2S"), Some(("2", TimeUnit::Seconds)));
}

#[test]
fn repeated_suffix_letters_are_all_trimmed() {
    assert_eq!(split_ms_then_s("4 msms"), Some(("4", TimeUnit::Milliseconds)));
    assert_eq!(split_ms_then_s("4 ss"), Some(("4", TimeUnit::Seconds)));
}

#[test]
fn no_unit_gives_none() {
    assert_eq!(split_ms_then_s("12"), None);
    assert_eq!(split_ms_then_s(""), None);
    assert_eq!(split_ms_then_s("   "), None);
    assert_eq!(split_ms_then_s("5 m"), None);
}

#[test]
fn unicode_white_space_is_trimmed() {
    assert_eq!(split_ms_then_s("9ms\u{3000}\u{a0}"), Some(("9", TimeUnit::Milliseconds)));
}

#[test]
fn leading_text_is_kept() {
    assert_eq!(split_ms_then_s(" x\u{e9} s"), Some((" x\u{e9}", TimeUnit::Seconds)));
}

#[test]
fn format_choices() {
    assert_eq!(
        ms_then_s_format(Magnitude::BelowHundred, 5),
        TimeFormat { unit: TimeUnit::Milliseconds, decimals: 1 }
    );
    assert_eq!(
        ms_then_s_format(Magnitude::BelowThousand, 5),
        TimeFormat { unit: TimeUnit::Milliseconds, decimals: 0 }
    );
    assert_eq!(
        ms_then_s_format(Magnitude::Other, 5),
        TimeFormat { unit: TimeUnit::Seconds, decimals: 5 }
    );
    assert_eq!(
        ms_then_s_format(Magnitude::Other, 0),
        TimeFormat { unit: TimeUnit::Seconds, decimals: 2 }
    );
}
