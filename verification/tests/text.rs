use ocdb_client::text::{
    contains, is_white_space, join_from, number, parse_u32, push_copies, push_padded, remove_all,
    same, split_words, trim,
};

const TEXTS: [&str; 12] = [
    "",
    " ",
    "e2e4",
    "  e2e4\te7e5  ",
    "info depth 12 score cp -34",
    "a\u{a0}b\u{2003}c",
    "\u{3000}wide\u{3000}",
    "\u{200b}zero width\u{200b}",
    "line\r\n",
    "é ü 漢字",
    "\u{85}next\u{85}",
    "id name id name",
];

#[test]
fn white_space_is_that_of_unicode() {
    for code in 0..=0x10ffffu32 {
        if let Some(c) = char::from_u32(code) {
            assert_eq!(is_white_space(c), c.is_whitespace(), "{:x}", code);
        }
    }
}

#[test]
fn words_are_split_at_white_space() {
    assert_eq!(split_words(" one\ttwo  three\n"), vec!["one", "two", "three"]);
    assert_eq!(split_words(" \u{3000} "), Vec::<String>::new());
    for s in TEXTS {
        let expected: Vec<&str> = s.split_whitespace().collect();
        assert_eq!(split_words(s), expected);
    }
}

#[test]
fn words_of_joined_words() {
    for s in TEXTS {
        let words = split_words(s);
        assert_eq!(split_words(&join_from(&words, 0, " ")), words);
    }
}

#[test]
fn join_starts_at_an_index() {
    let parts = vec!["a".to_string(), "b".to_string(), "c".to_string()];
    assert_eq!(join_from(&parts, 0, ", "), "a, b, c");
    assert_eq!(join_from(&parts, 1, " "), "b c");
    assert_eq!(join_from(&parts, 2, " "), "c");
    assert_eq!(join_from(&parts, 3, " "), "");
}

#[test]
fn trim_takes_white_space_from_both_ends() {
    assert_eq!(trim(" \t readyok \r\n"), "readyok");
    assert_eq!(trim(" a b "), "a b");
    for s in TEXTS {
        assert_eq!(trim(s), s.trim());
    }
}

#[test]
fn texts_are_compared_by_their_characters() {
    for a in TEXTS {
        for b in TEXTS {
            assert_eq!(same(a, b), a == b);
        }
    }
    assert!(!same("uci", "uciok"));
    assert!(!same("uciok", "uci"));
}

#[test]
fn patterns_are_found_anywhere() {
    assert!(contains("xxuciok", "uciok"));
    assert!(contains("uciokxx", "uciok"));
    assert!(!contains("ucio", "uciok"));
    assert!(!contains("uci ok", "uciok"));
    for a in TEXTS {
        for b in TEXTS {
            assert_eq!(contains(a, b), a.contains(b));
        }
    }
}

#[test]
fn patterns_are_removed_from_left_to_right() {
    assert_eq!(remove_all("id name Stockfish 17", "id name"), " Stockfish 17");
    assert_eq!(remove_all("aaaaa", "aa"), "a");
    assert_eq!(remove_all("aabb", "ab"), "ab");
    assert_eq!(remove_all("none", "some"), "none");
    for s in TEXTS {
        assert_eq!(remove_all(s, "id name"), s.replace("id name", ""));
    }
}

#[test]
fn numbers_are_written_in_decimal() {
    assert_eq!(number(0), "0");
    assert_eq!(number(907), "907");
    assert_eq!(number(u64::MAX), "18446744073709551615");
}

#[test]
fn numbers_are_read_as_the_standard_library_does() {
    let texts = [
        "0", "7", "007", "+7", "-7", "-0", "+", "-", "", " 7", "7 ", "4294967295", "4294967296",
        "+4294967295", "99999999999999999999", "12a", "١", "++1", "0x10", "00000000000000000001",
    ];
    for s in texts {
        assert_eq!(parse_u32(s), s.parse::<u32>().ok(), "{}", s);
    }
    assert_eq!(parse_u32("30"), Some(30));
}

#[test]
fn a_number_that_is_written_is_read_back() {
    for n in [0u32, 1, 9, 10, 99, 100, 12345, u32::MAX] {
        assert_eq!(parse_u32(&number(n as u64)), Some(n));
    }
}

#[test]
fn copies_and_padding_are_appended() {
    let mut s = String::from("x");
    push_copies(&mut s, '─', 3);
    push_copies(&mut s, '!', 0);
    assert_eq!(s, "x───");
    push_padded(&mut s, "é", 3);
    assert_eq!(s, "x───é  ");
    push_padded(&mut s, "long", 2);
    assert_eq!(s, "x───é  long");
}
