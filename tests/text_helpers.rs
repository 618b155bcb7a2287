use launcher_core::text::{
    int_to_text, nat_to_text, parse_u32, text_contains, text_eq, text_starts_with,
};

#[test]
fn parse_reads_plain_and_plus_prefixed_digits() {
    assert_eq!(parse_u32("17"), Some(17));
    assert_eq!(parse_u32("+8"), Some(8));
    assert_eq!(parse_u32("0042"), Some(42));
    assert_eq!(parse_u32("4294967295"), Some(u32::MAX));
}

#[test]
fn parse_rejects_what_from_str_rejects() {
    for s in ["", "+", "-1", "1.8", "8a", " 8", "4294967296", "99999999999999999999"] {
        assert_eq!(parse_u32(s), s.parse::<u32>().ok(), "input {s:?}");
    }
}

#[test]
fn decimal_text_of_integers() {
    assert_eq!(nat_to_text(0), "0");
    assert_eq!(nat_to_text(1234567890), "1234567890");
    assert_eq!(int_to_text(-1), "-1");
    assert_eq!(int_to_text(i32::MIN as i64), "-2147483648");
}

#[test]
fn text_comparisons() {
    assert!(text_eq("legacy", "legacy"));
    assert!(!text_eq("legacy", "legac"));
    assert!(text_starts_with("1.8.0_381", "1."));
    assert!(!text_starts_with("1", "1."));
    assert!(text_contains("minecraft/lang/en_us.json", "minecraft/lang/"));
    assert!(text_contains("abc", ""));
    assert!(!text_contains("minecraft/sounds/mob/cow.ogg", "minecraft/sounds/ui/"));
}
