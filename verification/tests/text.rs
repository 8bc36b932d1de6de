use glimanexus::text::{chars_of, lines, parse_i64, parse_u16, parse_u64, replace, split_words, splitn, trimmed};

fn cs(s: &str) -> Vec<char> {
    chars_of(s)
}

fn strings(v: Vec<Vec<char>>) -> Vec<String> {
    v.into_iter().map(|c| c.into_iter().collect()).collect()
}

#[test]
fn integer_parsing_follows_str_parse() {
    assert_eq!(parse_u64(&cs("0")), Some(0));
    assert_eq!(parse_u64(&cs("+42")), Some(42));
    assert_eq!(parse_u64(&cs("18446744073709551615")), Some(u64::MAX));
    assert_eq!(parse_u64(&cs("18446744073709551616")), None);
    assert_eq!(parse_u64(&cs("-1")), None);
    assert_eq!(parse_u64(&cs("+")), None);
    assert_eq!(parse_u64(&cs("")), None);
    assert_eq!(parse_u64(&cs(" 1")), None);
    assert_eq!(parse_u16(&cs("65535")), Some(65535));
    assert_eq!(parse_u16(&cs("65536")), None);
    assert_eq!(parse_i64(&cs("-9223372036854775808")), Some(i64::MIN));
    assert_eq!(parse_i64(&cs("9223372036854775807")), Some(i64::MAX));
    assert_eq!(parse_i64(&cs("9223372036854775808")), None);
    assert_eq!(parse_i64(&cs("-0")), Some(0));
    assert_eq!(parse_i64(&cs("-")), None);
    for s in ["7", "+7", "-7", "x", "", "007", "1e3"] {
        assert_eq!(parse_i64(&cs(s)), s.parse::<i64>().ok(), "{s}");
        assert_eq!(parse_u64(&cs(s)), s.parse::<u64>().ok(), "{s}");
    }
}

#[test]
fn lines_follow_str_lines() {
    for s in ["", "a", "a\n", "a\r\nb", "a\n\nb\n", "x\r", "\n", "a\rb\n"] {
        let expected: Vec<String> = s.lines().map(String::from).collect();
        assert_eq!(strings(lines(&cs(s))), expected, "{s:?}");
    }
}

#[test]
fn words_and_trim_follow_std() {
    for s in ["", "  a  b\tc\n", "\u{3000}x\u{a0}y ", "one"] {
        let expected: Vec<String> = s.split_whitespace().map(String::from).collect();
        assert_eq!(strings(split_words(&cs(s))), expected, "{s:?}");
        assert_eq!(trimmed(&cs(s)).into_iter().collect::<String>(), s.trim(), "{s:?}");
    }
}

#[test]
fn splitn_follows_str_splitn() {
    for s in ["", "a", "a|b", "a|b|c|d|e", "|", "||"] {
        for n in 1..5usize {
            let expected: Vec<String> = s.splitn(n, '|').map(String::from).collect();
            assert_eq!(strings(splitn(&cs(s), n, '|')), expected, "{s:?} {n}");
        }
    }
}

#[test]
fn replace_follows_str_replace() {
    for (s, p, r) in [("aaa", "aa", "b"), ("abcabc", "bc", "X"), ("", "x", "y"), ("xyz", "q", "w")] {
        let got: String = replace(&cs(s), &cs(p), &cs(r)).into_iter().collect();
        assert_eq!(got, s.replace(p, r));
    }
}
