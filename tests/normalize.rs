use dmslite::records::CalendarDate;
use dmslite::normalize::{normalize, tidy_title, tidy_up_string};

#[test]
fn whitespace_collapse_keeps_newlines() {
    assert_eq!(tidy_up_string("a   b\n\n c".to_string()), "a b\n\n c");
}

#[test]
fn tidy_trims_unicode_white_space() {
    assert_eq!(tidy_up_string("\u{3000}\t x  y \u{a0}\n".to_string()), "x y");
    assert_eq!(tidy_up_string("   ".to_string()), "");
    assert_eq!(tidy_up_string(String::new()), "");
}

#[test]
fn title_cleanup_removes_stars() {
    assert_eq!(tidy_title("**Invoice Summary**".to_string()), "Invoice Summary");
    assert_eq!(tidy_title("  *A*   *B*  ".to_string()), "A B");
    assert_eq!(tidy_title("a\u{1}b".to_string()), "ab");
    assert_eq!(tidy_title("\n**Über\tTitel**\n".to_string()), "berTitel");
}

#[test]
fn normalize_drops_unprintable_characters() {
    assert_eq!(normalize("a\tb\u{7f}c é"), "abc");
    assert_eq!(normalize("  Rechnung\n\n  Nr.   42  "), "Rechnung Nr. 42");
    assert_eq!(normalize("\u{1b}[1mBold\u{1b}[0m"), "[1mBold[0m");
}

#[test]
fn normalize_is_idempotent_on_samples() {
    let samples = [
        "",
        "   ",
        "a   b\n\n c",
        "  x \u{0} y   z  ",
        "Größe   über\talles ",
        "**Title**   with   stars",
    ];
    for s in samples {
        let once = normalize(s);
        assert_eq!(normalize(&once), once);
    }
}

#[test]
fn calendar_dates_are_checked() {
    let d = |year, month, day| CalendarDate { year, month, day };
    assert!(d(2024, 2, 29).check_valid());
    assert!(!d(2023, 2, 29).check_valid());
    assert!(!d(1900, 2, 29).check_valid());
    assert!(d(2000, 2, 29).check_valid());
    assert!(d(-4, 2, 29).check_valid());
    assert!(!d(-100, 2, 29).check_valid());
    assert!(d(-400, 2, 29).check_valid());
    assert!(!d(2024, 4, 31).check_valid());
    assert!(d(2024, 12, 31).check_valid());
    assert!(!d(2024, 13, 1).check_valid());
    assert!(!d(2024, 1, 0).check_valid());
}
