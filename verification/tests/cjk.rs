use mdbook_fix_cjk_spacing::{ends_with_cjk, is_cjk, starts_with_cjk};

#[test]
fn ideographs_kana_and_hangul_are_cjk() {
    assert!(is_cjk('中'));
    assert!(is_cjk('文'));
    assert!(is_cjk('あ'));
    assert!(is_cjk('カ'));
    assert!(is_cjk('한'));
    assert!(is_cjk('。'));
    assert!(is_cjk('（'));
    assert!(is_cjk('“'));
}

#[test]
fn latin_digits_and_spaces_are_not_cjk() {
    assert!(!is_cjk('a'));
    assert!(!is_cjk('Z'));
    assert!(!is_cjk('0'));
    assert!(!is_cjk(' '));
    assert!(!is_cjk('\n'));
    assert!(!is_cjk(')'));
    assert!(!is_cjk('é'));
    assert!(!is_cjk('я'));
}

#[test]
fn general_punctuation_range_bounds() {
    assert!(!is_cjk('\u{1FFF}'));
    assert!(is_cjk('\u{2000}'));
    assert!(is_cjk('\u{206F}'));
    assert!(!is_cjk('\u{2070}'));
}

#[test]
fn radicals_range_bounds() {
    assert!(!is_cjk('\u{2E7F}'));
    assert!(is_cjk('\u{2E80}'));
    assert!(is_cjk('\u{2EDF}'));
    assert!(!is_cjk('\u{2EE0}'));
    assert!(!is_cjk('\u{2FFF}'));
}

#[test]
fn symbols_to_ideographs_range_bounds() {
    assert!(is_cjk('\u{3000}'));
    assert!(is_cjk('\u{4E00}'));
    assert!(is_cjk('\u{9FFF}'));
    assert!(!is_cjk('\u{A000}'));
}

#[test]
fn hangul_range_bounds() {
    assert!(!is_cjk('\u{ABFF}'));
    assert!(is_cjk('\u{AC00}'));
    assert!(is_cjk('\u{D7FF}'));
    assert!(!is_cjk('\u{E000}'));
}

#[test]
fn compatibility_ideographs_range_bounds() {
    assert!(!is_cjk('\u{F8FF}'));
    assert!(is_cjk('\u{F900}'));
    assert!(is_cjk('\u{FAFF}'));
    assert!(!is_cjk('\u{FB00}'));
}

#[test]
fn compatibility_forms_range_bounds() {
    assert!(!is_cjk('\u{FE2F}'));
    assert!(is_cjk('\u{FE30}'));
    assert!(is_cjk('\u{FE6F}'));
    assert!(!is_cjk('\u{FE70}'));
}

#[test]
fn fullwidth_forms_range_bounds() {
    assert!(!is_cjk('\u{FEFF}'));
    assert!(is_cjk('\u{FF00}'));
    assert!(is_cjk('\u{FFEE}'));
    assert!(!is_cjk('\u{FFEF}'));
}

#[test]
fn supplementary_planes_are_left_out() {
    assert!(!is_cjk('\u{1F600}'));
    assert!(!is_cjk('\u{20000}'));
    assert!(!is_cjk('\u{1B000}'));
    assert!(!is_cjk('\u{10FFFF}'));
    assert!(!is_cjk('\u{0}'));
}

#[test]
fn every_scalar_value_is_classified_by_the_ranges() {
    let ranges: [(u32, u32); 7] = [
        (0x2000, 0x206F),
        (0x2E80, 0x2EDF),
        (0x3000, 0x9FFF),
        (0xAC00, 0xD7FF),
        (0xF900, 0xFAFF),
        (0xFE30, 0xFE6F),
        (0xFF00, 0xFFEE),
    ];
    let mut v: u32 = 0;
    while v <= 0x10FFFF {
        if let Some(c) = char::from_u32(v) {
            let expected = ranges.iter().any(|r| r.0 <= v && v <= r.1);
            assert_eq!(is_cjk(c), expected);
        }
        v += 1;
    }
}

#[test]
fn empty_text_neither_starts_nor_ends_with_cjk() {
    assert!(!starts_with_cjk(""));
    assert!(!ends_with_cjk(""));
}

#[test]
fn only_the_first_character_decides_the_start() {
    assert!(starts_with_cjk("中"));
    assert!(starts_with_cjk("中a"));
    assert!(!starts_with_cjk("a中"));
    assert!(!starts_with_cjk(" 中"));
    assert!(!starts_with_cjk("abc"));
    assert!(starts_with_cjk("（a）"));
}

#[test]
fn only_the_last_character_decides_the_end() {
    assert!(ends_with_cjk("中"));
    assert!(ends_with_cjk("a中"));
    assert!(!ends_with_cjk("中a"));
    assert!(!ends_with_cjk("中 "));
    assert!(!ends_with_cjk("abc"));
    assert!(ends_with_cjk("abc。"));
    assert!(!ends_with_cjk("中文😀"));
}
