use reloopy::json::{put_entry, Json};
use reloopy::paths::join;
use reloopy::scan::{
    comes_before, find_part, has_part, join_with, split_text, trim_suffixes, words_of,
};
use reloopy::split::{find_char, is_white, lines_of, split_char, trim, trim_right};
use reloopy::table::Table;
use reloopy::text::{chars_of, decimal, pad_left, read_u32, str_eq, string_from};

fn json(text: &str) -> Json {
    match Json::parse(text) {
        Ok(j) => j,
        Err(e) => panic!("{}: {}", text, e),
    }
}

#[test]
fn numbers_are_written_and_read() {
    for n in [0u64, 7, 10, 4_294_967_295, u64::MAX] {
        assert_eq!(decimal(n), n.to_string());
    }
    for s in ["0", "+12", "007", "4294967295", "4294967296", "", "+", "-1", "1a", " 1"] {
        assert_eq!(read_u32(s), s.parse::<u32>().ok());
    }
    assert_eq!(pad_left("7", 3, '0'), "007");
    assert_eq!(pad_left("1234", 3, '0'), "1234");
}

#[test]
fn texts_are_cut_and_joined() {
    assert!(str_eq("ä", "ä") && !str_eq("a", "ab"));
    let v = chars_of("häß");
    assert_eq!(v, vec!['h', 'ä', 'ß']);
    assert_eq!(string_from(&v, 1, 3), "äß");
    assert_eq!(find_char(&v, 'ß', 0), 2);
    assert_eq!(find_char(&v, 'x', 1), 3);
    for s in [" \t a b \u{3000}\n", "", "  ", "x", "\u{a0}x\u{85}"] {
        assert_eq!(trim(s), s.trim());
        assert_eq!(trim_right(s), s.trim_end());
        let words: Vec<String> = s.split_whitespace().map(|w| w.to_string()).collect();
        assert_eq!(words_of(s), words);
    }
    for c in [' ', 'x', '\u{200b}', '\u{2003}', '\u{1680}', '\u{feff}'] {
        assert_eq!(is_white(c), c.is_whitespace());
    }
}

#[test]
fn lines_and_pieces_match_the_standard_library() {
    for s in ["", "a", "a\n", "a\nb", "a\r\nb\r", "\n\n", "\r\n", "a\r\r\nb"] {
        let lines: Vec<String> = s.lines().map(|l| l.to_string()).collect();
        assert_eq!(lines_of(s), lines);
        let pieces: Vec<String> = s.split('\n').map(|l| l.to_string()).collect();
        assert_eq!(split_char(s, '\n'), pieces);
        let parts: Vec<String> = s.split("\n\n").map(|l| l.to_string()).collect();
        assert_eq!(split_text(s, "\n\n"), parts);
    }
    for s in ["aaa", "abab", "xyz", ""] {
        assert_eq!(has_part(s, "aa"), s.contains("aa"));
        assert_eq!(has_part(s, ""), s.contains(""));
        assert_eq!(trim_suffixes(s, "a"), s.trim_end_matches("a"));
    }
    assert_eq!(find_part(&chars_of("abcabc"), &chars_of("ca"), 0), Some(2));
    assert_eq!(find_part(&chars_of("abcabc"), &chars_of("bc"), 2), Some(4));
    assert_eq!(find_part(&chars_of("abc"), &chars_of("x"), 0), None);
    for (a, b) in [("a", "b"), ("b", "a"), ("a", "aa"), ("2024.md", "MEMORY.md"), ("é", "z")] {
        assert_eq!(comes_before(a, b), a < b);
    }
    let v = vec!["a".to_string(), "".to_string(), "b".to_string()];
    assert_eq!(join_with(&v, "; "), v.join("; "));
    assert_eq!(join_with(&vec![], "; "), "");
}

#[test]
fn paths_are_joined() {
    for (a, b) in [("/a", "b"), ("/a/", "b"), ("", "b"), ("/a", "/b"), ("/a", ""), ("/a", ".")] {
        let expected = std::path::Path::new(a).join(b);
        assert_eq!(join(a, b), expected.to_string_lossy());
    }
}

#[test]
fn tables_keep_their_order() {
    let mut t: Table<u8> = Table::new();
    t.insert("b", 1);
    t.insert("a", 2);
    t.insert("b", 3);
    assert_eq!(t.len(), 2);
    assert_eq!((t.key_at(0), *t.value_at(0)), ("b", 3));
    assert_eq!(t.get("a"), Some(&2));
    assert!(t.contains("b") && !t.contains("c"));
    assert_eq!(t.remove("b"), Some(3));
    assert_eq!(t.remove("b"), None);
    assert_eq!(t.len(), 1);
}

#[test]
fn json_is_read_and_written() {
    let j = json(" {\"b\": [1, -2.5, null, true], \"a\": \"x\\n\", \"b2\": {}} ");
    assert_eq!(j.compact(), "{\"a\":\"x\\n\",\"b\":[1,-2.5,null,true],\"b2\":{}}");
    assert_eq!(json("{\"a\":[]}").pretty(), "{\n  \"a\": []\n}");
    assert_eq!(j.get_str("a"), Some("x\n"));
    assert_eq!(j.get("a").unwrap().as_str(), Some("x\n"));
    assert_eq!(j.get_list("b").unwrap().len(), 4);
    assert_eq!(j.get_list("b").unwrap()[0].as_u64(), Some(1));
    assert_eq!(j.get_list("b").unwrap()[1].as_u64(), None);
    assert!(j.get("c").is_none());
    assert!(json("[1]").get("a").is_none());
    assert_eq!(j.copy().compact(), j.compact());
    assert_eq!(json("{\"a\":1,\"a\":2}").compact(), "{\"a\":2}");
    assert_eq!(
        Json::parse("[1,").err(),
        Some("EOF while parsing a value at line 1 column 3".to_string())
    );
    assert!(Json::parse("").is_err());
}

#[test]
fn documents_read_back() {
    let texts = [
        "null",
        "[true,-3,18446744073709551615]",
        "{\"a\":{\"b\":[1,\"\\u0001\\n\\\"é\"]},\"z\":[]}",
    ];
    for text in texts {
        let j = json(text);
        assert_eq!(json(&j.compact()).compact(), j.compact());
        assert_eq!(json(&j.pretty()).compact(), j.compact());
        assert_eq!(j.compact(), text);
    }
    // The reader gives up on documents that nest too deeply.
    let nested = |n: usize| format!("{}{}", "[".repeat(n), "]".repeat(n));
    assert_eq!(json(&nested(127)).compact(), nested(127));
    assert!(Json::parse(&nested(128)).is_err());
}

#[test]
fn json_is_built() {
    let mut j = Json::object();
    j.set("n", Json::number(u64::MAX));
    j.set("t", Json::text("\"q\""));
    j.set("o", Json::optional(&None));
    j.set("s", Json::optional(&Some("v".to_string())));
    j.set("l", Json::strings(&vec!["a".to_string()]));
    j.set("n", Json::number(5));
    assert_eq!(j.compact(), "{\"l\":[\"a\"],\"n\":5,\"o\":null,\"s\":\"v\",\"t\":\"\\\"q\\\"\"}");
    let mut entries: Vec<(String, Json)> = Vec::new();
    put_entry(&mut entries, "k", Json::Bool(true));
    put_entry(&mut entries, "k", Json::Null);
    assert_eq!(Json::Object(entries).compact(), "{\"k\":null}");
}
