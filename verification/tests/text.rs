//! Text primitives, held against the standard library's.
use rtk::text::chars;
use rtk::text::compose;
use rtk::text::number;
use rtk::text::search;
use rtk::text::split;
use rtk::text::utf8;

fn list(s: &str) -> Vec<char> {
    s.chars().collect()
}

fn text(s: &[char]) -> String {
    s.iter().collect()
}

fn texts(v: &[&[char]]) -> Vec<String> {
    v.iter().map(|s| text(s)).collect()
}

/// All strings of up to `len` characters over `alphabet`.
fn strings(alphabet: &[char], len: usize) -> Vec<String> {
    let mut all = vec![String::new()];
    let mut last = vec![String::new()];
    for _ in 0..len {
        let mut next = Vec::new();
        for s in &last {
            for c in alphabet {
                let mut t = s.clone();
                t.push(*c);
                next.push(t);
            }
        }
        all.extend(next.iter().cloned());
        last = next;
    }
    all
}

#[test]
fn white_space_is_that_of_unicode() {
    for code in 0..=0x10ffffu32 {
        if let Some(c) = char::from_u32(code) {
            assert_eq!(chars::is_whitespace(c), c.is_whitespace(), "{:x}", code);
            assert_eq!(chars::is_ascii_digit(c), c.is_ascii_digit());
            assert_eq!(chars::is_hex_digit(c), c.is_ascii_hexdigit());
            assert_eq!(utf8::char_width(c), c.len_utf8());
        }
    }
}

#[test]
fn trimming_agrees_with_std() {
    for s in strings(&[' ', 'a', '\t', '\u{3000}', 'é'], 5) {
        let l = list(&s);
        assert_eq!(text(chars::trim(&l)), s.trim());
        assert_eq!(text(chars::trim_start(&l)), s.trim_start());
        assert_eq!(text(chars::trim_end(&l)), s.trim_end());
        assert_eq!(chars::blank(&l), s.trim().is_empty());
        let t = list(s.trim());
        assert_eq!(text(chars::trim(&t)), s.trim());
    }
}

#[test]
fn lines_agree_with_std() {
    for s in strings(&['\n', '\r', 'a', ' '], 6) {
        let expected: Vec<&str> = s.lines().collect();
        assert_eq!(texts(&split::lines(&list(&s))), expected, "{:?}", s);
    }
}

#[test]
fn words_agree_with_std() {
    for s in strings(&[' ', '\n', 'a', 'b'], 6) {
        let expected: Vec<&str> = s.split_whitespace().collect();
        assert_eq!(texts(&split::words(&list(&s))), expected, "{:?}", s);
    }
}

#[test]
fn splitting_agrees_with_std() {
    for s in strings(&['a', 'b', ','], 6) {
        for p in ["a", "ab", "aa", ",", "aba"] {
            let expected: Vec<&str> = s.split(p).collect();
            assert_eq!(texts(&split::split(&list(&s), p)), expected, "{:?} {:?}", s, p);
        }
    }
}

#[test]
fn searching_agrees_with_std() {
    for s in strings(&['a', 'b', 'é'], 6) {
        for p in ["", "a", "ab", "aa", "é", "ba"] {
            let l = list(&s);
            let chars_before = |i: usize| s[..i].chars().count();
            assert_eq!(search::find(&l, p), s.find(p).map(chars_before), "{:?} {:?}", s, p);
            assert_eq!(search::rfind(&l, p), s.rfind(p).map(chars_before), "{:?} {:?}", s, p);
            assert_eq!(search::contains(&l, p), s.contains(p));
            assert_eq!(search::str_contains(&s, p), s.contains(p));
            assert_eq!(chars::starts_with(&l, p), s.starts_with(p));
        }
        assert_eq!(search::contains_char(&list(&s), 'é'), s.contains('é'));
    }
}

#[test]
fn prefixes_agree_with_std() {
    for s in strings(&['#', ' ', 'a'], 7) {
        let l = list(&s);
        assert_eq!(text(chars::strip_prefixes(&l, "## ")), s.trim_start_matches("## "));
    }
}

#[test]
fn numbers_agree_with_std() {
    for s in strings(&['0', '1', '9', '+', '-', 'a'], 4) {
        let l = list(&s);
        assert_eq!(number::parse_usize(&l), s.parse::<usize>().ok(), "{:?}", s);
        assert_eq!(number::parse_u32(&l), s.parse::<u32>().ok(), "{:?}", s);
        assert_eq!(number::parse_i32(&l), s.parse::<i32>().ok(), "{:?}", s);
    }
    for s in [
        "2147483647",
        "2147483648",
        "-2147483648",
        "-2147483649",
        "4294967295",
        "4294967296",
        "18446744073709551615",
        "18446744073709551616",
        "99999999999999999999999",
        "000000000000000000000000000001",
        "+",
        "-",
        "+-1",
        "٣",
    ] {
        let l = list(s);
        assert_eq!(number::parse_usize(&l), s.parse::<usize>().ok(), "{:?}", s);
        assert_eq!(number::parse_u32(&l), s.parse::<u32>().ok(), "{:?}", s);
        assert_eq!(number::parse_i32(&l), s.parse::<i32>().ok(), "{:?}", s);
    }
    for n in [0, 1, 9, 10, 99, 100, 12345, i32::MAX, i32::MIN, -1, -10] {
        assert_eq!(number::decimal_i32(n), n.to_string());
    }
    for n in [0usize, 9, 10, 1000, 65535, usize::MAX] {
        assert_eq!(number::decimal(n), n.to_string());
        assert_eq!(number::parse_usize(&list(&number::decimal(n))), Some(n));
    }
    assert_eq!(number::decimal_u64(u64::MAX), u64::MAX.to_string());
}

#[test]
fn bytes_are_counted_as_std_does() {
    for s in strings(&['a', 'é', '日', '🎉'], 4) {
        let l = list(&s);
        for n in 1..=17usize {
            assert_eq!(utf8::shorter_than(&l, n), s.len() < n);
            if n <= s.len() {
                assert_eq!(utf8::is_boundary(&l, n), s.is_char_boundary(n), "{:?} {}", s, n);
            }
            let mut cut = n.min(s.len());
            while !s.is_char_boundary(cut) {
                cut -= 1;
            }
            assert_eq!(utf8::head_str(&s, n), &s[..cut]);
        }
    }
}

#[test]
fn joining_agrees_with_std() {
    let none: Vec<String> = Vec::new();
    assert_eq!(compose::join(&none, ", "), "");
    let some = vec!["a".to_string(), "".to_string(), "b c".to_string()];
    assert_eq!(compose::join(&some, ", "), some.join(", "));
    assert_eq!(compose::copied(&some), some);
    assert!(compose::has(&some, ""));
    assert!(!compose::has(&some, "c"));
}
