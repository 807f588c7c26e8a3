use supabase_middleware::credentials::{read_bearer, read_cookies, read_credentials};

fn some(s: &str) -> Option<String> {
    Some(s.to_string())
}

#[test]
fn bearer_token_is_trimmed() {
    assert_eq!(read_bearer("Bearer abc.def.ghi"), some("abc.def.ghi"));
    assert_eq!(read_bearer("Bearer   abc  "), some("abc"));
    assert_eq!(read_bearer("Bearerabc"), some("abc"));
}

#[test]
fn header_without_bearer_holds_no_token() {
    assert_eq!(read_bearer("Basic abc"), None);
    assert_eq!(read_bearer("bearer abc"), None);
    assert_eq!(read_bearer(""), None);
}

#[test]
fn token_ends_at_the_next_bearer() {
    assert_eq!(read_bearer("Bearer a Bearer b"), some("a"));
    assert_eq!(read_bearer("BearerBearer b"), some(""));
    assert_eq!(read_bearer("x Bearer b"), some("b"));
}

#[test]
fn cookies_hold_both_tokens() {
    let tokens = read_cookies("theme=dark; apikey=abc; refresh_token=def; x");
    assert_eq!(tokens.access_token, some("abc"));
    assert_eq!(tokens.refresh_token, some("def"));
}

#[test]
fn later_cookie_counts() {
    let tokens = read_cookies("apikey=a;refresh_token=r;apikey=b");
    assert_eq!(tokens.access_token, some("b"));
    assert_eq!(tokens.refresh_token, some("r"));
}

#[test]
fn cookie_names_are_exact() {
    let tokens = read_cookies("xapikey=a; apikey =b; Refresh_token=c");
    assert_eq!(tokens.access_token, None);
    assert_eq!(tokens.refresh_token, None);
}

#[test]
fn empty_cookie_is_an_empty_token() {
    let tokens = read_cookies("apikey=; refresh_token=");
    assert_eq!(tokens.access_token, some(""));
    assert_eq!(tokens.refresh_token, some(""));
}

#[test]
fn bearer_token_hides_cookies() {
    let tokens = read_credentials(Some("Bearer t"), Some("apikey=a; refresh_token=r"));
    assert_eq!(tokens.access_token, some("t"));
    assert_eq!(tokens.refresh_token, None);
}

#[test]
fn cookies_count_without_bearer_token() {
    let tokens = read_credentials(Some("Basic t"), Some("apikey=a; refresh_token=r"));
    assert_eq!(tokens.access_token, some("a"));
    assert_eq!(tokens.refresh_token, some("r"));
    let tokens = read_credentials(None, None);
    assert_eq!(tokens.access_token, None);
    assert_eq!(tokens.refresh_token, None);
}
