use cloud_p2p_images::text::{
    contains_char, file_name, file_stem, lines, split, text_after, text_to_u32, u32_to_text,
};

#[test]
fn split_keeps_empty_pieces() {
    assert_eq!(split("a&b&c", '&'), vec!["a", "b", "c"]);
    assert_eq!(split("&a&", '&'), vec!["", "a", ""]);
    assert_eq!(split("", '&'), vec![""]);
    assert_eq!(split("no separator", '&'), vec!["no separator"]);
}

#[test]
fn split_agrees_with_std() {
    for s in ["", "&", "&&", "a&b", "ä&ö&", "x.y.z"] {
        let expected: Vec<String> = s.split('&').map(String::from).collect();
        assert_eq!(split(s, '&'), expected);
    }
}

#[test]
fn contains_char_finds_separators() {
    assert!(contains_char("127.0.0.1:1&pic.png", '&'));
    assert!(!contains_char("127.0.0.1:1", '&'));
    assert!(!contains_char("", '&'));
}

#[test]
fn lines_end_in_line_feeds() {
    assert_eq!(lines("a\nb\r\nc"), vec!["a", "b", "c"]);
    assert_eq!(lines("a\n"), vec!["a"]);
    assert_eq!(lines(""), Vec::<String>::new());
    assert_eq!(lines("\n\n"), vec!["", ""]);
}

#[test]
fn lines_agree_with_std() {
    for s in ["", "\n", "a\r", "a\r\n", "a\r\r\nb", "\r\n\r\n", "one\ntwo\n\nthree"] {
        let expected: Vec<String> = s.lines().map(String::from).collect();
        assert_eq!(lines(s), expected);
    }
}

#[test]
fn numbers_are_written_in_decimal() {
    assert_eq!(u32_to_text(0), "0");
    assert_eq!(u32_to_text(9), "9");
    assert_eq!(u32_to_text(10), "10");
    assert_eq!(u32_to_text(5000), "5000");
    assert_eq!(u32_to_text(u32::MAX), "4294967295");
}

#[test]
fn numbers_are_read_as_std_reads_them() {
    for s in [
        "", "+", "-1", "0", "+7", "007", "42", "4294967295", "4294967296", "42949672950", "1 ",
        " 1", "1\n", "12a", "++1", "٣",
    ] {
        assert_eq!(text_to_u32(s), s.parse::<u32>().ok(), "{}", s);
    }
}

#[test]
fn written_numbers_are_read_back() {
    for n in [0, 1, 10, 99, 100, 123456789, u32::MAX] {
        assert_eq!(text_to_u32(u32_to_text(n).as_str()), Some(n));
    }
}

#[test]
fn texts_are_ordered_as_strings_are() {
    for a in ["", "a", "ab", "b", "127.0.0.1:9", "127.0.0.1:10", "é", "z"] {
        for b in ["", "a", "ab", "b", "127.0.0.1:9", "127.0.0.1:10", "é", "z"] {
            assert_eq!(text_after(a, b), String::from(a) > String::from(b));
        }
    }
}

#[test]
fn file_names_are_those_of_paths() {
    for p in [
        "a/b.png", "b.png", "/", "", ".", "..", "a/..", "a/.", "a/b/", "./b", "//x//", "../x.tar.gz",
    ] {
        let expected = std::path::Path::new(p)
            .file_name()
            .map(|n| n.to_str().unwrap().to_string());
        assert_eq!(file_name(p), expected, "{}", p);
    }
}

#[test]
fn stems_are_those_of_paths() {
    for p in ["b.png", "b", ".hidden", "x.tar.gz", "b.", "..b", "a.b.c"] {
        let expected = std::path::Path::new(p).file_stem().unwrap().to_str().unwrap();
        assert_eq!(file_stem(p), expected, "{}", p);
    }
}
