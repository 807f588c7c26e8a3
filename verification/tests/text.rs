use supabase_middleware::text::{
    decimal_string, replace_str, split_str, strip_prefix_str, trim_str,
};

#[test]
fn trimming_agrees_with_std() {
    for s in ["", " a b ", "\t\u{3000}x\u{a0}", "   ", "no", "\u{200b}x\u{200b}", "\r\nq\u{85}"] {
        assert_eq!(trim_str(s), s.trim());
    }
}

#[test]
fn white_space_agrees_with_std() {
    for n in 0..=0x10ffffu32 {
        if let Some(c) = char::from_u32(n) {
            if c.is_whitespace() || n < 0x400 || (0x1600..0x3100).contains(&n) {
                let s = c.to_string();
                assert_eq!(trim_str(&s), s.trim(), "{:x}", n);
            }
        }
    }
}

#[test]
fn splitting_agrees_with_std() {
    let cases = [
        ("Bearer abc", "Bearer"),
        ("BearerBearer x", "Bearer"),
        ("abc", "Bearer"),
        ("", ";"),
        (";", ";"),
        ("a;b;;c;", ";"),
        ("aaaaa", "aa"),
        ("äbä", "b"),
    ];
    for (s, pat) in cases {
        let expected: Vec<String> = s.split(pat).map(|p| p.to_string()).collect();
        assert_eq!(split_str(s, pat), expected);
    }
}

#[test]
fn replacing_agrees_with_std() {
    let cases = [
        "https://abc.supabase.co",
        "http://localhost:54321",
        "httphttp://http",
        "",
        "htt",
        "hhttp",
        "ähttpä",
    ];
    for s in cases {
        assert_eq!(replace_str(s, "http", "ws"), s.replace("http", "ws"));
    }
}

#[test]
fn prefixes_agree_with_std() {
    let cases = ["apikey=abc", "apikey=", "apikey", "", "xapikey=", "Apikey=abc"];
    for s in cases {
        let expected = s.strip_prefix("apikey=").map(|r| r.to_string());
        assert_eq!(strip_prefix_str(s, "apikey="), expected);
    }
}

#[test]
fn decimals_agree_with_std() {
    let numbers = [0, 1, 9, 10, 99, 100, 604800, i64::MAX, -1, -10, i64::MIN, i64::MIN + 1];
    for n in numbers {
        assert_eq!(decimal_string(n), n.to_string());
    }
}
