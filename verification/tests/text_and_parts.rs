use lcsc_scrape::parts::{
    apply_jlc_info, dedup_pairs, find_part_columns, is_valid_part_number, needs_download,
    part_record, split_part_list, spreadsheet_part_numbers, strip_basic_marker,
    validate_part_numbers,
};
use lcsc_scrape::jlc::JlcPartInfo;
use lcsc_scrape::text::{
    bool_string, char_count, chars_of, concat_text, decimal, has_prefix, has_substring, has_suffix,
    keep_ascii_chars, remove_char, same_text, string_of, trim_chars, white_space, TrimInPlace,
};

fn s(x: &str) -> String {
    x.to_string()
}

fn pair(k: &str, v: &str) -> (String, String) {
    (s(k), s(v))
}

#[test]
fn white_space_follows_unicode() {
    assert!(white_space(' '));
    assert!(white_space('\t'));
    assert!(white_space('\u{a0}'));
    assert!(white_space('\u{3000}'));
    assert!(!white_space('a'));
    assert!(!white_space('\u{200b}'));
    for c in ['\n', '\r', '\u{85}', '\u{2028}', '\u{205f}', 'x', '0', '\u{feff}'] {
        assert_eq!(white_space(c), c.is_whitespace());
    }
}

#[test]
fn trim_matches_str_trim() {
    for text in ["  a b  ", "\u{a0}x\u{3000}", "   ", "", "abc", "\n\tq\r\n"] {
        let t = trim_chars(&chars_of(text));
        assert_eq!(string_of(&t), text.trim());
    }
}

#[test]
fn trim_in_place_trims() {
    let mut t = s("\u{2003} 10 kOhm \t");
    t.trim_in_place();
    assert_eq!(t, "10 kOhm");
    t.trim_in_place();
    assert_eq!(t, "10 kOhm");
}

#[test]
fn ascii_filter_and_quotes() {
    let v = keep_ascii_chars(&chars_of("10µF±5%"));
    assert_eq!(string_of(&v), "10F5%");
    assert_eq!(remove_char("a\"b\"c", '"'), "abc");
    assert_eq!(char_count("US$1 US$2", '$'), 2);
    assert_eq!(char_count("none", '$'), 0);
}

#[test]
fn prefix_suffix_substring() {
    assert!(has_prefix("Price 1+", "Price"));
    assert!(!has_prefix("Pri", "Price"));
    assert!(has_suffix("C123_b", "_b"));
    assert!(!has_suffix("b", "_b"));
    assert!(has_substring("Voltage - Input (Min)", "Voltage"));
    assert!(has_substring("abc", ""));
    assert!(!has_substring("Volt", "Voltage"));
    assert!(same_text("RoHS", "RoHS"));
    assert!(!same_text("RoHS", "Rohs"));
    assert_eq!(concat_text("pp_", "Basic"), "pp_Basic");
}

#[test]
fn decimal_rendering() {
    assert_eq!(decimal(0), "0");
    assert_eq!(decimal(1500), "1500");
    assert_eq!(decimal(-42), "-42");
    assert_eq!(decimal(i64::MAX as i128), i64::MAX.to_string());
    assert_eq!(decimal(i64::MIN as i128), i64::MIN.to_string());
    assert_eq!(bool_string(true), "true");
    assert_eq!(bool_string(false), "false");
}

#[test]
fn part_numbers_are_checked() {
    assert!(is_valid_part_number("C1234"));
    assert!(is_valid_part_number("c7"));
    assert!(is_valid_part_number("C1234_b"));
    assert!(is_valid_part_number("C1234_b_b"));
    assert!(!is_valid_part_number("C"));
    assert!(!is_valid_part_number("X1234"));
    assert!(!is_valid_part_number("C12a"));
    assert!(!is_valid_part_number("C12_"));
    assert!(!is_valid_part_number(""));
}

#[test]
fn validation_reports_first_bad_part() {
    assert!(validate_part_numbers(&vec![s("C1"), s("C2_b")]).is_ok());
    let err = validate_part_numbers(&vec![s("C1"), s("bad"), s("worse")]).err().unwrap();
    assert_eq!(err.part, "bad");
    assert!(validate_part_numbers(&vec![]).is_ok());
}

#[test]
fn basic_marker_is_taken_off_once() {
    assert_eq!(strip_basic_marker(s("C25804_b")), (s("C25804"), true));
    assert_eq!(strip_basic_marker(s("C25804")), (s("C25804"), false));
    assert_eq!(strip_basic_marker(s("C1_b_b")), (s("C1_b"), true));
    assert_eq!(strip_basic_marker(s("_b")), (s(""), true));
}

#[test]
fn basic_marker_round_trip() {
    for p in ["C1", "C25804", ""] {
        let marked = format!("{}_b", p);
        assert_eq!(strip_basic_marker(marked), (s(p), true));
    }
}

#[test]
fn download_decision() {
    assert!(needs_download(true, true, 10));
    assert!(needs_download(false, false, 10));
    assert!(needs_download(false, true, 0));
    assert!(!needs_download(false, true, 10));
}

#[test]
fn jlc_info_contribution() {
    let found = JlcPartInfo::Found { basic: false, pairs: vec![pair("JLC_Stock", "5")] };
    let c = apply_jlc_info(found, true, true);
    assert!(!c.basic);
    assert_eq!(c.pairs, vec![pair("JLC_Stock", "5")]);
    assert!(!c.purge_cache);
    let c = apply_jlc_info(JlcPartInfo::Missing, true, true);
    assert!(c.basic);
    assert!(c.pairs.is_empty());
    assert!(c.purge_cache);
    let c = apply_jlc_info(JlcPartInfo::BadCode(500), false, false);
    assert!(!c.basic);
    assert!(!c.purge_cache);
}

#[test]
fn dedup_keeps_first_pair_of_each_key() {
    let r = dedup_pairs(vec![pair("a", "1"), pair("b", "2"), pair("a", "3"), pair("c", "4")]);
    assert_eq!(r, vec![pair("a", "1"), pair("b", "2"), pair("c", "4")]);
    assert!(dedup_pairs(vec![]).is_empty());
}

#[test]
fn record_gives_jlc_pairs_priority() {
    let r = part_record(
        vec![pair("JLC_Stock", "10"), pair("Package", "0402")],
        vec![pair("Package", "0603"), pair("Resistance", "10k")],
        true,
        true,
    );
    assert_eq!(
        r.pairs,
        vec![
            pair("JLC_Stock", "10"),
            pair("Package", "0402"),
            pair("Resistance", "10k"),
            pair("Basic", "true")
        ]
    );
    assert!(!r.purge_page_cache);
    let r = part_record(vec![], vec![], false, true);
    assert_eq!(r.pairs, vec![pair("Basic", "false")]);
    assert!(r.purge_page_cache);
    let r = part_record(vec![], vec![], false, false);
    assert!(!r.purge_page_cache);
}

#[test]
fn parts_list_words() {
    assert_eq!(
        split_part_list("C1 C2_b\n\tC3\u{a0}C4  "),
        vec![s("C1"), s("C2_b"), s("C3"), s("C4")]
    );
    assert!(split_part_list(" \n ").is_empty());
    for text in ["a  b", " x", "y ", "z"] {
        let ours = split_part_list(text);
        let std_words: Vec<String> = text.split_whitespace().map(String::from).collect();
        assert_eq!(ours, std_words);
    }
}

#[test]
fn spreadsheet_columns() {
    let header = vec![Some(s("Comment")), Some(s("LCSC Part")), None, Some(s("Library Type"))];
    assert_eq!(find_part_columns(&header), Some((1, 3)));
    let header = vec![Some(s("LCSC Part")), Some(s("LCSC Part"))];
    assert_eq!(find_part_columns(&header), None);
    let header = vec![Some(s("LCSC Part")), Some(s("Library Type")), Some(s("LCSC Part"))];
    assert_eq!(find_part_columns(&header), Some((2, 1)));
}

#[test]
fn spreadsheet_rows() {
    let rows = vec![
        (Some(s("C1")), Some(s("Basic"))),
        (Some(s("C2")), Some(s("Extended"))),
        (Some(s("C3")), Some(s("base"))),
        (None, Some(s("Basic"))),
        (Some(s("C5")), None),
        (Some(s("C6")), Some(s("BASIC"))),
    ];
    assert_eq!(
        spreadsheet_part_numbers(&rows),
        vec![s("C1_b"), s("C2"), s("C3_b"), s("C6_b")]
    );
}

#[test]
fn spreadsheet_basic_rows_read_back_as_basic() {
    let rows = vec![(Some(s("C9")), Some(s("Basic"))), (Some(s("C8")), Some(s("Extended")))];
    let parts = spreadsheet_part_numbers(&rows);
    assert_eq!(strip_basic_marker(parts[0].clone()), (s("C9"), true));
    assert_eq!(strip_basic_marker(parts[1].clone()), (s("C8"), false));
}
