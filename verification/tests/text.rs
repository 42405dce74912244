use wp_spotlight::decimal::{decimal_of, digit_char};
use wp_spotlight::lines::lines_of;
use wp_spotlight::search::{find_char, find_text, slice_of};
use wp_spotlight::text::{chars_of, push_all, push_str, same_text, string_of};
use wp_spotlight::trim::{trim, CharClass};

fn cs(s: &str) -> Vec<char> {
    s.chars().collect()
}

fn st(v: &[char]) -> String {
    v.iter().collect()
}

#[test]
fn strings_and_characters_convert_both_ways() {
    for s in ["", "a", "add_action('init')", "añ→😀\n\t", "\u{0}\u{10ffff}"] {
        assert_eq!(chars_of(s), cs(s));
        assert_eq!(string_of(&cs(s)), s);
        assert_eq!(string_of(&chars_of(s)), s);
    }
}

#[test]
fn appending_keeps_what_was_there() {
    let mut out = cs("ab");
    push_all(&mut out, &cs("cd"));
    assert_eq!(st(&out), "abcd");
    push_str(&mut out, "→e");
    assert_eq!(st(&out), "abcd→e");
    push_str(&mut out, "");
    push_all(&mut out, &Vec::new());
    assert_eq!(st(&out), "abcd→e");
}

#[test]
fn same_text_compares_every_character() {
    assert!(same_text(&cs(""), &cs("")));
    assert!(same_text(&cs("abc"), &cs("abc")));
    assert!(!same_text(&cs("abc"), &cs("abd")));
    assert!(!same_text(&cs("abc"), &cs("xbc")));
    assert!(!same_text(&cs("abc"), &cs("ab")));
}

#[test]
fn find_char_gives_the_first_position() {
    assert_eq!(find_char(&cs("a(b(c"), '('), 1);
    assert_eq!(find_char(&cs("(("), '('), 0);
    assert_eq!(find_char(&cs("abc"), '('), 3);
    assert_eq!(find_char(&cs(""), '('), 0);
    assert_eq!(find_char(&cs("añ→(x"), '('), 3);
}

#[test]
fn find_text_gives_the_first_occurrence() {
    assert_eq!(find_text(&cs("abcabc"), &cs("bc")), Some(1));
    assert_eq!(find_text(&cs("abcabc"), &cs("abc")), Some(0));
    assert_eq!(find_text(&cs("abcabc"), &cs("cab")), Some(2));
    assert_eq!(find_text(&cs("abcabc"), &cs("abcabc")), Some(0));
    assert_eq!(find_text(&cs("abcabc"), &cs("abcabcd")), None);
    assert_eq!(find_text(&cs("abcabc"), &cs("x")), None);
    assert_eq!(find_text(&cs("abc"), &cs("")), Some(0));
    assert_eq!(find_text(&cs(""), &cs("")), Some(0));
    assert_eq!(find_text(&cs(""), &cs("a")), None);
    assert_eq!(find_text(&cs("aaab"), &cs("aab")), Some(1));
    assert_eq!(find_text(&cs("xxc"), &cs("c")), Some(2));
}

#[test]
fn find_text_agrees_with_std() {
    let hay = "abracadabra cadabra";
    for needle in ["a", "ab", "bra", "cad", "dab", " ", "ra c", "z", "abracadabra cadabra!", ""] {
        let std_at = hay.find(needle);
        assert_eq!(find_text(&cs(hay), &cs(needle)), std_at, "{needle}");
    }
}

#[test]
fn slice_of_copies_a_range() {
    let v = cs("hello");
    assert_eq!(st(&slice_of(&v, 0, 5)), "hello");
    assert_eq!(st(&slice_of(&v, 1, 3)), "el");
    assert_eq!(st(&slice_of(&v, 2, 2)), "");
    assert_eq!(st(&slice_of(&v, 5, 5)), "");
}

#[test]
fn white_space_is_what_std_calls_white_space() {
    let mut n = 0;
    for u in 0..=0x10ffffu32 {
        if let Some(c) = char::from_u32(u) {
            assert_eq!(CharClass::Whitespace.contains(c), c.is_whitespace(), "U+{u:04X}");
            if c.is_whitespace() {
                n += 1;
            }
        }
    }
    assert_eq!(n, 25);
}

#[test]
fn quotes_are_the_two_quote_characters() {
    for u in 0..=0x10ffffu32 {
        if let Some(c) = char::from_u32(u) {
            assert_eq!(CharClass::Quote.contains(c), c == '\'' || c == '"');
        }
    }
}

#[test]
fn trim_agrees_with_std() {
    for s in [
        "",
        " ",
        "\t\r\n",
        "abc",
        "  abc",
        "abc  ",
        " \t a b\tc \r\n",
        "\u{a0}x\u{3000}",
        "\u{2003}\u{2028}a \u{85} b\u{205f}\u{1680}",
        "\u{200b}x\u{200b}",
        " ' quoted ' ",
    ] {
        assert_eq!(st(&trim(&cs(s), CharClass::Whitespace)), s.trim(), "{s:?}");
        let quote = |c: char| c == '\'' || c == '"';
        assert_eq!(st(&trim(&cs(s), CharClass::Quote)), s.trim_matches(quote), "{s:?}");
    }
    assert_eq!(st(&trim(&cs("''a'b\"\""), CharClass::Quote)), "a'b");
    assert_eq!(st(&trim(&cs("'\"'"), CharClass::Quote)), "");
}

#[test]
fn lines_are_the_pieces_between_line_feeds() {
    let split = |s: &str| -> Vec<String> { lines_of(&cs(s)).iter().map(|l| st(l)).collect() };
    assert_eq!(split(""), Vec::<String>::new());
    assert_eq!(split("a"), vec!["a"]);
    assert_eq!(split("a\n"), vec!["a"]);
    assert_eq!(split("a\nb"), vec!["a", "b"]);
    assert_eq!(split("a\n\nb\n"), vec!["a", "", "b"]);
    assert_eq!(split("\n"), vec![""]);
    assert_eq!(split("\n\n"), vec!["", ""]);
    assert_eq!(split("a\r\nb"), vec!["a\r", "b"]);
}

#[test]
fn trimmed_lines_agree_with_std() {
    for s in [
        "",
        "\n",
        "one",
        "one\n",
        "one\ntwo",
        "one\r\ntwo\r\n",
        "  one \r\n\r\n\ttwo\r",
        "a\rb\nc\r\r\nd\n\r",
        "\r\n\r\n",
        "x\n\n\n",
    ] {
        let ours: Vec<String> = lines_of(&cs(s)).iter().map(|l| st(&trim(l, CharClass::Whitespace))).collect();
        let theirs: Vec<String> = s.lines().map(|l| l.trim().to_string()).collect();
        assert_eq!(ours, theirs, "{s:?}");
    }
}

#[test]
fn decimal_agrees_with_std() {
    for n in [0usize, 1, 9, 10, 11, 99, 100, 101, 1234567890, usize::MAX, usize::MAX - 1, 1000000] {
        assert_eq!(st(&decimal_of(n)), n.to_string());
    }
    for n in 0..2000usize {
        assert_eq!(st(&decimal_of(n)), n.to_string());
    }
    assert_eq!(st(&decimal_of(42)), "42");
    let digits: String = (0..10).map(digit_char).collect();
    assert_eq!(digits, "0123456789");
}
