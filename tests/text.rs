use pulse::display::{format_percent, gauge_percent, load_level, mini_bar, truncate, Level};
use pulse::sort::name_before;
use pulse::text::{chars_of, same_text, text_contains};

#[test]
fn text_contains_finds_pieces() {
    assert!(text_contains("alphabeta", "abe"));
    assert!(text_contains("alpha", ""));
    assert!(text_contains("", ""));
    assert!(!text_contains("alp", "alpha"));
    assert!(!text_contains("alpha", "ALPHA"));
    assert!(text_contains("production", "prod"));
}

#[test]
fn chars_and_equality() {
    assert_eq!(chars_of("héllo"), vec!['h', 'é', 'l', 'l', 'o']);
    assert!(same_text("online", "online"));
    assert!(!same_text("online", "Online"));
}

#[test]
fn names_order_lexicographically() {
    assert!(name_before("alpha", "beta"));
    assert!(name_before("alpha", "alphabeta"));
    assert!(!name_before("beta", "alpha"));
    assert!(!name_before("same", "same"));
    assert!(name_before("", "a"));
    assert!(name_before("Zed", "apple"));
}

#[test]
fn truncate_cuts_long_text() {
    assert_eq!(truncate("production-node", 10), "productio~");
    assert_eq!(truncate("short", 10), "short");
    assert_eq!(truncate("exactly10!", 10), "exactly10!");
    assert_eq!(truncate("ab", 1), "~");
}

#[test]
fn mini_bar_fills_by_percent() {
    assert_eq!(mini_bar(5000, 8), "[====    ]");
    assert_eq!(mini_bar(0, 4), "[    ]");
    assert_eq!(mini_bar(10000, 4), "[====]");
    assert_eq!(mini_bar(25000, 4), "[====]");
    assert_eq!(mini_bar(625, 8), "[=       ]");
}

#[test]
fn load_levels_and_gauges() {
    assert_eq!(load_level(9000), Level::Critical);
    assert_eq!(load_level(8999), Level::Warning);
    assert_eq!(load_level(7000), Level::Warning);
    assert_eq!(load_level(6999), Level::Normal);
    assert_eq!(gauge_percent(12345), 100);
    assert_eq!(gauge_percent(4599), 45);
}

#[test]
fn percent_text_has_one_decimal() {
    assert_eq!(format_percent(1234), "12.3%");
    assert_eq!(format_percent(1236), "12.4%");
    assert_eq!(format_percent(0), "0.0%");
    assert_eq!(format_percent(10000), "100.0%");
}
