use quicfs::text::{
    chars_of, decimal_text, has_prefix, padded_text, parse_octal, parse_u64, same, split_all,
    split_once_only, strip_prefix, trim_start, without_prefix,
};

#[test]
fn prefix_is_taken_off_as_often_as_it_stands() {
    assert_eq!(trim_start("/file/a", "/file"), "/a");
    assert_eq!(trim_start("/file/file/a", "/file"), "/a");
    assert_eq!(trim_start("/file/file1.txt", "/file"), "1.txt");
    assert_eq!(trim_start("///a/", "/"), "a/");
    assert_eq!(trim_start("a", "/"), "a");
    assert_eq!(trim_start("a", ""), "a");
    assert_eq!(trim_start("", "/"), "");
}

#[test]
fn prefixes_are_told() {
    assert!(has_prefix("bytes=1", "bytes="));
    assert!(!has_prefix("byte", "bytes="));
    assert!(has_prefix("x", ""));
    assert!(!has_prefix("xbc", "abc"));
    assert_eq!(strip_prefix("bytes 1", "bytes "), Some("1"));
    assert_eq!(strip_prefix("Bytes 1", "bytes "), None);
    assert!(same("ä", "ä"));
    assert!(!same("ä", "a"));
    assert_eq!(chars_of("aä"), vec!['a', 'ä']);
}

#[test]
fn text_splits_at_a_single_separator() {
    assert_eq!(split_once_only("a-b", '-'), Some(("a", "b")));
    assert_eq!(split_once_only("-", '-'), Some(("", "")));
    assert_eq!(split_once_only("ä-ö", '-'), Some(("ä", "ö")));
    assert_eq!(split_once_only("a-b-c", '-'), None);
    assert_eq!(split_once_only("abc", '-'), None);
    assert_eq!(split_once_only("", '-'), None);
}

#[test]
fn numbers_are_read_as_the_standard_library_reads_them() {
    for s in [
        "", "+", "-", "0", "00", "7", "+7", "++7", "-7", "7 ", " 7", "007", "1a", "12345",
        "18446744073709551615", "18446744073709551616", "99999999999999999999",
        "+18446744073709551615", "000000000000000000000000000001", "٣",
    ] {
        assert_eq!(parse_u64(s), s.parse::<u64>().ok(), "{s:?}");
    }
}

#[test]
fn numbers_read_back_as_written() {
    for n in [0, 1, 9, 10, 99, 100, 65536, u64::MAX] {
        assert_eq!(decimal_text(n), n.to_string());
        assert_eq!(parse_u64(&decimal_text(n)), Some(n));
    }
    assert_eq!(padded_text(7, 2), "07");
    assert_eq!(padded_text(70, 2), "70");
    assert_eq!(padded_text(700, 2), "700");
    assert_eq!(padded_text(0, 4), "0000");
}

#[test]
fn prefix_is_taken_off_once() {
    assert_eq!(without_prefix("/file/file/a", "/file"), "/file/a");
    assert_eq!(without_prefix("a", "/file"), "a");
    assert_eq!(without_prefix("/file", "/file"), "");
}

#[test]
fn text_splits_at_every_separator() {
    assert_eq!(split_all("a//bä/", '/'), ["a", "", "bä", ""]);
    assert_eq!(split_all("", '/'), [""]);
    assert_eq!(split_all("/", '/'), ["", ""]);
    assert_eq!(split_all("ab", '/'), ["ab"]);
}

#[test]
fn octal_numbers_are_read() {
    assert_eq!(parse_octal("0644", 0o7777), Some(0o644));
    assert_eq!(parse_octal("755", 0o7777), Some(0o755));
    assert_eq!(parse_octal("7777", 0o7777), Some(0o7777));
    assert_eq!(parse_octal("10000", 0o7777), None);
    assert_eq!(parse_octal("37777777777", u32::MAX), Some(u32::MAX));
    assert_eq!(parse_octal("40000000000", u32::MAX), None);
    assert_eq!(parse_octal("", 0o7777), None);
    assert_eq!(parse_octal("648", 0o7777), None);
    assert_eq!(parse_octal("+644", 0o7777), None);
}
