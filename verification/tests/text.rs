use font_shaper::text::{
    code_points_of, cut, hex_list_of, is_replacement, numeral, same_text,
};

#[test]
fn numerals_have_no_leading_zeros() {
    assert_eq!(numeral(0, 10), "0");
    assert_eq!(numeral(7, 10), "7");
    assert_eq!(numeral(10, 10), "10");
    assert_eq!(numeral(1234567890, 10), "1234567890");
    assert_eq!(numeral(u64::MAX, 10), "18446744073709551615");
    assert_eq!(numeral(0, 16), "0");
    assert_eq!(numeral(255, 16), "ff");
    assert_eq!(numeral(0x263a, 16), "263a");
    assert_eq!(numeral(u64::MAX, 16), "ffffffffffffffff");
    assert_eq!(numeral(5, 2), "101");
}

#[test]
fn code_points_are_listed_in_base_sixteen() {
    assert_eq!(hex_list_of(&vec![]), "[]");
    assert_eq!(hex_list_of(&vec![0x3f]), "[3f]");
    assert_eq!(hex_list_of(&vec![1, 0xabcdef, u32::MAX]), "[1, abcdef, ffffffff]");
}

#[test]
fn a_text_has_the_code_points_of_its_characters() {
    assert_eq!(code_points_of(""), Vec::<u32>::new());
    assert_eq!(code_points_of("A\u{263a}\u{10ffff}"), vec![0x41, 0x263a, 0x10ffff]);
}

#[test]
fn a_piece_is_cut_between_characters_only() {
    let text = "a\u{e9}\u{263a}b";
    assert_eq!(cut(text, 0, 7), Some(text));
    assert_eq!(cut(text, 1, 3), Some("\u{e9}"));
    assert_eq!(cut(text, 3, 6), Some("\u{263a}"));
    assert_eq!(cut(text, 3, 3), Some(""));
    assert_eq!(cut(text, 7, 7), Some(""));
    assert_eq!(cut(text, 0, 2), None);
    assert_eq!(cut(text, 2, 3), None);
    assert_eq!(cut(text, 4, 6), None);
    assert_eq!(cut(text, 3, 1), None);
    assert_eq!(cut(text, 0, 8), None);
    assert_eq!(cut(text, 8, 9), None);
    assert_eq!(cut(text, usize::MAX, usize::MAX), None);
    assert_eq!(cut("", 0, 0), Some(""));
}

#[test]
fn texts_compare_by_their_characters() {
    assert!(same_text("abc", "abc"));
    assert!(same_text("", ""));
    assert!(!same_text("abc", "abd"));
    assert!(!same_text("abc", "ab"));
    assert!(is_replacement("?"));
    assert!(!is_replacement("??"));
    assert!(!is_replacement(""));
    assert!(!is_replacement("\u{ff1f}"));
}
