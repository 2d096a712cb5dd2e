use take_slicer::text::{
    append_decimal, append_padded, chars_of, decimal_len, digit_str, find_char, read_number,
    same_text, Numeral, NUMBER_CAP,
};

#[test]
fn chars_of_gives_every_character() {
    assert_eq!(chars_of(""), Vec::<char>::new());
    assert_eq!(chars_of("a:b"), vec!['a', ':', 'b']);
    assert_eq!(chars_of("é1"), vec!['é', '1']);
}

#[test]
fn digit_str_names_each_digit() {
    let digits: Vec<&str> = (0..10).map(digit_str).collect();
    assert_eq!(digits, vec!["0", "1", "2", "3", "4", "5", "6", "7", "8", "9"]);
}

#[test]
fn append_decimal_writes_the_shortest_numeral() {
    let mut out = String::from("n=");
    append_decimal(&mut out, 0);
    assert_eq!(out, "n=0");
    append_decimal(&mut out, 907);
    assert_eq!(out, "n=0907");
    let mut max = String::new();
    append_decimal(&mut max, u64::MAX);
    assert_eq!(max, "18446744073709551615");
}

#[test]
fn decimal_len_counts_digits() {
    assert_eq!(decimal_len(0), 1);
    assert_eq!(decimal_len(9), 1);
    assert_eq!(decimal_len(10), 2);
    assert_eq!(decimal_len(999), 3);
    assert_eq!(decimal_len(u64::MAX), 20);
}

#[test]
fn append_padded_fills_with_zeros() {
    let mut out = String::new();
    append_padded(&mut out, 4, 3);
    assert_eq!(out, "004");
    append_padded(&mut out, 12, 2);
    assert_eq!(out, "00412");
    append_padded(&mut out, 123, 2);
    assert_eq!(out, "00412123");
    append_padded(&mut out, 0, 0);
    assert_eq!(out, "004121230");
}

#[test]
fn find_char_stops_at_the_first() {
    let chars = chars_of("01:02:03.004");
    assert_eq!(find_char(&chars, ':', 0), 2);
    assert_eq!(find_char(&chars, ':', 3), 5);
    assert_eq!(find_char(&chars, '.', 6), 8);
    assert_eq!(find_char(&chars, ':', 6), chars.len());
    assert_eq!(find_char(&chars, ':', chars.len()), chars.len());
}

#[test]
fn read_number_tells_digits_from_the_rest() {
    let chars = chars_of("0042x7");
    assert_eq!(read_number(&chars, 0, 4), Numeral::Value(42));
    assert_eq!(read_number(&chars, 0, 0), Numeral::Value(0));
    assert_eq!(read_number(&chars, 0, 5), Numeral::NotDigits);
    assert_eq!(read_number(&chars, 5, 6), Numeral::Value(7));
}

#[test]
fn read_number_caps_what_it_hands_out() {
    let at_cap = chars_of("5124095576030");
    assert_eq!(read_number(&at_cap, 0, at_cap.len()), Numeral::Value(NUMBER_CAP));
    let above = chars_of("5124095576031");
    assert_eq!(read_number(&above, 0, above.len()), Numeral::TooLarge);
    let long = chars_of("99999999999999999999999999999999");
    assert_eq!(read_number(&long, 0, long.len()), Numeral::TooLarge);
    let long_bad = chars_of("9999999999999999999999999999999x");
    assert_eq!(read_number(&long_bad, 0, long_bad.len()), Numeral::NotDigits);
}

#[test]
fn same_text_compares_characters() {
    assert!(same_text("mp4", "mp4"));
    assert!(same_text("", ""));
    assert!(!same_text("mp4", "mp3"));
    assert!(!same_text("mp4", "mp"));
    assert!(!same_text("MP4", "mp4"));
}
