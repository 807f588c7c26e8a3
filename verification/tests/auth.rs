use jsonwebtoken::{encode, Algorithm, EncodingKey, Header};
use serde_json::Value;
use supabase_middleware::auth::{
    check_claims, judge_claims, supabase_auth_layer, AuthState, Claims, ClaimsCheck, Outcome,
    RefreshResponse, Refusal, Step, SupabaseAuthentication, SupabaseAuthenticationLayer,
};
use supabase_middleware::credentials::read_cookies;
use supabase_middleware::token::accepted;

const USER: &str = "550e8400-e29b-41d4-a716-446655440000";
const USER_ID: u128 = 0x550e8400_e29b_41d4_a716_446655440000;
const FAR_FUTURE: i64 = 4_000_000_000;

fn service(reject_no_auth: bool) -> SupabaseAuthentication<u8> {
    SupabaseAuthenticationLayer::new(
        "secret".to_string(),
        "https://abc.supabase.co/auth/v1".to_string(),
        "anon".to_string(),
        reject_no_auth,
    )
    .layer(7u8)
}

fn signed(secret: &str, audience: &str, issuer: Option<&str>, exp: i64) -> String {
    let mut claims = serde_json::Map::new();
    claims.insert("aud".to_string(), Value::from(audience));
    claims.insert("exp".to_string(), Value::from(exp));
    claims.insert("sub".to_string(), Value::from(USER));
    claims.insert("email".to_string(), Value::from("a@b.c"));
    claims.insert("role".to_string(), Value::from("authenticated"));
    if let Some(issuer) = issuer {
        claims.insert("iss".to_string(), Value::from(issuer));
    }
    let key = EncodingKey::from_secret(secret.as_bytes());
    encode(&Header::default(), &Value::Object(claims), &key).unwrap()
}

fn good_token() -> String {
    signed("secret", "authenticated", Some("https://abc.supabase.co/auth/v1"), FAR_FUTURE)
}

fn claims(role: &str, sub: &str) -> Claims {
    Claims {
        aud: "authenticated".to_string(),
        exp: FAR_FUTURE,
        sub: sub.to_string(),
        email: "a@b.c".to_string(),
        role: role.to_string(),
    }
}

fn tokens(access_token: &str) -> RefreshResponse {
    RefreshResponse {
        access_token: access_token.to_string(),
        refresh_token: "next".to_string(),
        expires_in: 3600,
    }
}

fn dotted(parts: &[&str]) -> String {
    parts.join(".")
}

fn bearer(token: &str) -> String {
    format!("Bearer {}", token)
}

fn refused(step: Step) -> Refusal {
    match step {
        Step::Finish(Outcome::Refuse(refusal)) => refusal,
        other => panic!("{:?}", other),
    }
}

#[test]
fn layer_points_to_the_authentication_service() {
    let layer = supabase_auth_layer(
        "s".to_string(),
        "https://abc.supabase.co".to_string(),
        "k".to_string(),
    );
    assert_eq!(layer.jwt_secret, "s");
    assert_eq!(layer.audience, "https://abc.supabase.co/auth/v1");
    assert_eq!(layer.supabase_anon_key, "k");
    assert!(!layer.reject_no_auth);
    let copy = layer.clone().layer("inner").clone();
    assert_eq!(copy.inner, "inner");
    assert_eq!(copy.audience, "https://abc.supabase.co/auth/v1");
    assert!(!copy.reject_no_auth);
}

#[test]
fn valid_token_is_handed_on() {
    let step = service(true).validate(Some(&bearer(&good_token())), None);
    match step {
        Step::ReadClaims { token, refresh_token } => {
            assert_eq!(token, good_token());
            assert_eq!(refresh_token, None);
        }
        other => panic!("{:?}", other),
    }
}

#[test]
fn claims_that_nobody_reads_may_hold_any_bytes() {
    // The claims of a good token, and `"name"` with a byte in it that is not UTF-8.
    let message = dotted(&[
        "eyJ0eXAiOiJKV1QiLCJhbGciOiJIUzI1NiJ9",
        "eyJhdWQiOiJhdXRoZW50aWNhdGVkIiwiZXhwIjo0MDAwMDAwMDAwLCJzdWIiOiI1NTBlODQwMC1lMjliLTQxZDQtYTcxNi00NDY2NTU0NDAwMDAiLCJlbWFpbCI6ImFAYi5jIiwicm9sZSI6ImF1dGhlbnRpY2F0ZWQiLCJuYW1lIjoi_yJ9",
    ]);
    let key = EncodingKey::from_secret(b"secret");
    let signature = jsonwebtoken::crypto::sign(message.as_bytes(), &key, Algorithm::HS256).unwrap();
    let token = dotted(&[&message, &signature]);
    let step = service(true).validate(Some(&bearer(&token)), None);
    assert!(matches!(step, Step::ReadClaims { .. }));
    let forged = dotted(&[&message, "c2lnbmF0dXJl"]);
    let step = service(true).validate(Some(&bearer(&forged)), None);
    assert_eq!(refused(step), Refusal::InvalidToken);
}

#[test]
fn tokens_are_signed_by_one_algorithm() {
    let mut claims = serde_json::Map::new();
    claims.insert("aud".to_string(), Value::from("authenticated"));
    claims.insert("exp".to_string(), Value::from(FAR_FUTURE));
    let claims = Value::Object(claims);
    let key = EncodingKey::from_secret(b"secret");
    let token = encode(&Header::new(Algorithm::HS256), &claims, &key).unwrap();
    let step = service(true).validate(Some(&bearer(&token)), None);
    assert!(matches!(step, Step::ReadClaims { .. }));
    for algorithm in [Algorithm::HS384, Algorithm::HS512] {
        let token = encode(&Header::new(algorithm), &claims, &key).unwrap();
        let step = service(true).validate(Some(&bearer(&token)), None);
        assert_eq!(refused(step), Refusal::InvalidToken);
    }
}

#[test]
fn token_without_issuer_is_decoded() {
    let token = signed("secret", "authenticated", None, FAR_FUTURE);
    let step = service(false).validate(Some(&bearer(&token)), None);
    assert!(matches!(step, Step::ReadClaims { .. }));
}

#[test]
fn bad_tokens_are_refused() {
    let issuer = Some("https://abc.supabase.co/auth/v1");
    let bad = [
        signed("other", "authenticated", issuer, FAR_FUTURE),
        signed("secret", "anon", issuer, FAR_FUTURE),
        signed("secret", "authenticated", Some("https://abc.supabase.co"), FAR_FUTURE),
        signed("secret", "authenticated", issuer, 1_000_000_000),
        "no.token.here".to_string(),
        String::new(),
    ];
    for token in bad {
        for reject_no_auth in [false, true] {
            let step = service(reject_no_auth).validate(Some(&bearer(&token)), None);
            assert_eq!(refused(step), Refusal::InvalidToken);
        }
    }
}

#[test]
fn bad_token_is_refreshed_from_cookies() {
    let step = service(true).validate(None, Some("apikey=bad; refresh_token=r"));
    match step {
        Step::Refresh { request, presented } => {
            assert!(presented);
            assert_eq!(
                request.url,
                "https://abc.supabase.co/auth/v1/token?grant_type=refresh_token"
            );
            assert_eq!(request.apikey, "anon");
            assert_eq!(request.refresh_token, "r");
        }
        other => panic!("{:?}", other),
    }
}

#[test]
fn refresh_token_alone_is_refreshed() {
    let step = service(true).validate(None, Some("refresh_token=r"));
    assert!(matches!(step, Step::Refresh { presented: false, .. }));
}

#[test]
fn request_without_tokens() {
    assert_eq!(refused(service(true).validate(None, None)), Refusal::NoToken);
    match service(false).validate(None, Some("theme=dark")) {
        Step::Finish(Outcome::Forward { state, renewed }) => {
            assert!(state.is_none());
            assert!(renewed.is_none());
        }
        other => panic!("{:?}", other),
    }
}

#[test]
fn only_decoded_tokens_are_accepted() {
    assert!(accepted(Ok(())));
    let error = jsonwebtoken::decode_header("no token").unwrap_err();
    assert!(!accepted(Err(error)));
}

#[test]
fn accepted_token_is_handed_on() {
    let step = service(true).token_decoded("t".to_string(), true, Some("r".to_string()));
    match step {
        Step::ReadClaims { token, refresh_token } => {
            assert_eq!(token, "t");
            assert_eq!(refresh_token, Some("r".to_string()));
        }
        other => panic!("{:?}", other),
    }
    let step = service(false).token_decoded("t".to_string(), false, None);
    assert_eq!(refused(step), Refusal::InvalidToken);
}

#[test]
fn accepted_claims_name_the_user() {
    let step = service(true).claims_read(Some(claims("authenticated", USER)), None);
    match step {
        Step::Finish(outcome) => {
            assert!(outcome.set_cookies().is_empty());
            match outcome {
                Outcome::Forward { state: Some(state), renewed: None } => {
                    assert_eq!(state.user_id, USER_ID);
                    assert_eq!(state.email, "a@b.c");
                }
                other => panic!("{:?}", other),
            }
        }
        other => panic!("{:?}", other),
    }
}

#[test]
fn other_role_is_unauthorized_despite_refresh_token() {
    let refresh_token = Some("r".to_string());
    let step = service(false).claims_read(Some(claims("anon", USER)), refresh_token);
    assert_eq!(refused(step), Refusal::Unauthorized);
}

#[test]
fn unreadable_claims_count_as_invalid() {
    let step = service(false).claims_read(None, Some("r".to_string()));
    assert!(matches!(step, Step::Refresh { presented: true, .. }));
    let step = service(false).claims_read(None, None);
    assert_eq!(refused(step), Refusal::InvalidToken);
}

#[test]
fn malformed_subject_is_reported() {
    let step = service(false).claims_read(Some(claims("authenticated", "nobody")), None);
    assert!(matches!(step, Step::MalformedSubject));
    let step =
        service(false).renewed_claims_read(Some(claims("authenticated", "")), tokens("t"), false);
    assert!(matches!(step, Step::MalformedSubject));
    let step = service(false).claims_read(Some(claims("anon", "nobody")), None);
    assert_eq!(refused(step), Refusal::Unauthorized);
}

#[test]
fn subjects_are_read_as_uuids() {
    let writings = [
        USER.to_string(),
        USER.to_uppercase(),
        USER.replace('-', ""),
        format!("urn:uuid:{}", USER),
        format!("{{{}}}", USER),
    ];
    for sub in writings {
        match check_claims(claims("authenticated", &sub)) {
            ClaimsCheck::Accepted(state) => assert_eq!(state.user_id, USER_ID),
            other => panic!("{:?}", other),
        }
    }
}

#[test]
fn claims_are_judged_by_role_first() {
    assert!(matches!(judge_claims(claims("x", USER), Some(1)), ClaimsCheck::NotAuthenticated));
    assert!(matches!(judge_claims(claims("x", USER), None), ClaimsCheck::NotAuthenticated));
    assert!(matches!(
        judge_claims(claims("authenticated", USER), None),
        ClaimsCheck::MalformedSubject
    ));
    match judge_claims(claims("authenticated", USER), Some(5)) {
        ClaimsCheck::Accepted(state) => assert_eq!(state.user_id, 5),
        other => panic!("{:?}", other),
    }
}

#[test]
fn checks_decide_on_their_own() {
    let state = || AuthState { user_id: 3, email: "e".to_string() };
    let step = service(false).claims_checked(Some(ClaimsCheck::Accepted(state())), None);
    assert!(matches!(step, Step::Finish(Outcome::Forward { state: Some(_), renewed: None })));
    let step = service(false).claims_checked(Some(ClaimsCheck::NotAuthenticated), None);
    assert_eq!(refused(step), Refusal::Unauthorized);
    let step = service(false).renewed_claims_checked(
        Some(ClaimsCheck::NotAuthenticated),
        tokens("t"),
        true,
    );
    assert_eq!(refused(step), Refusal::InvalidToken);
    let step = service(true).renewed_claims_checked(
        Some(ClaimsCheck::NotAuthenticated),
        tokens("t"),
        false,
    );
    assert_eq!(refused(step), Refusal::NoToken);
    let step = service(true).renewed_claims_checked(
        Some(ClaimsCheck::Accepted(state())),
        tokens("t"),
        false,
    );
    assert!(matches!(step, Step::Finish(Outcome::Forward { state: Some(_), renewed: Some(_) })));
}

#[test]
fn failed_refresh_falls_back() {
    assert_eq!(refused(service(false).refreshed(None, true)), Refusal::InvalidToken);
    assert_eq!(refused(service(true).refreshed(None, false)), Refusal::NoToken);
    assert!(matches!(
        service(false).refreshed(None, false),
        Step::Finish(Outcome::Forward { state: None, renewed: None })
    ));
    let step = service(true).refreshed(Some(tokens("bad")), true);
    assert_eq!(refused(step), Refusal::InvalidToken);
}

#[test]
fn renewed_token_is_decoded_again() {
    let step = service(true).refreshed(Some(tokens(&good_token())), true);
    match step {
        Step::ReadRenewed { renewed, presented } => {
            assert!(presented);
            assert_eq!(renewed.refresh_token, "next");
            assert_eq!(renewed.access_token, good_token());
        }
        other => panic!("{:?}", other),
    }
    let step = service(true).renewed_decoded(false, tokens("t"), false);
    assert_eq!(refused(step), Refusal::NoToken);
    let step = service(true).renewed_decoded(true, tokens("t"), false);
    assert!(matches!(step, Step::ReadRenewed { presented: false, .. }));
}

#[test]
fn renewed_tokens_are_set_as_cookies() {
    let claims = Some(claims("authenticated", USER));
    let step = service(true).renewed_claims_read(claims, tokens("fresh"), true);
    match step {
        Step::Finish(outcome) => {
            assert_eq!(
                outcome.set_cookies(),
                vec![
                    "apikey=fresh; Max-Age=3600; Path=/".to_string(),
                    "refresh_token=next; Max-Age=604800; Path=/".to_string(),
                ]
            );
            assert!(matches!(
                outcome,
                Outcome::Forward { state: Some(_), renewed: Some(_) }
            ));
        }
        other => panic!("{:?}", other),
    }
}

#[test]
fn renewed_token_for_another_role_falls_back() {
    let step = service(true).renewed_claims_read(Some(claims("anon", USER)), tokens("t"), true);
    assert_eq!(refused(step), Refusal::InvalidToken);
    let step = service(true).renewed_claims_read(None, tokens("t"), false);
    assert_eq!(refused(step), Refusal::NoToken);
    let step = service(false).renewed_claims_read(None, tokens("t"), false);
    assert!(matches!(step, Step::Finish(Outcome::Forward { state: None, renewed: None })));
}

#[test]
fn renewed_cookies_are_read_back() {
    let outcome = Outcome::Forward { state: None, renewed: Some(tokens("fresh")) };
    let kept: Vec<String> = outcome
        .set_cookies()
        .iter()
        .map(|header| header.split(';').next().unwrap().to_string())
        .collect();
    let read = read_cookies(&kept.join("; "));
    assert_eq!(read.access_token, Some("fresh".to_string()));
    assert_eq!(read.refresh_token, Some("next".to_string()));
}

#[test]
fn refusals_are_answered() {
    let answers = [
        (Refusal::Unauthenticated, "Unauthenticated"),
        (Refusal::Unauthorized, "Unauthorized"),
        (Refusal::InvalidToken, "Invalid JWT token"),
        (Refusal::NoToken, "No authorization token found"),
    ];
    for (refusal, body) in answers {
        assert_eq!(refusal.status(), 401);
        assert_eq!(refusal.body(), body);
        let cookies = Outcome::Refuse(refusal).set_cookies();
        if refusal == Refusal::InvalidToken {
            assert_eq!(
                cookies,
                vec![
                    "apikey=; Max-Age=0; Path=/".to_string(),
                    "refresh_token=; Max-Age=0; Path=/".to_string(),
                ]
            );
        } else {
            assert!(cookies.is_empty());
        }
    }
}

#[test]
fn handlers_get_the_user_or_a_refusal() {
    let state = AuthState { user_id: 9, email: "e".to_string() };
    assert_eq!(AuthState::from_request_parts(Some(state.clone())).unwrap().user_id, 9);
    assert_eq!(
        AuthState::from_request_parts(None).unwrap_err(),
        Refusal::Unauthenticated
    );
}

#[test]
fn rejecting_layer_forwards_nobody_without_a_user() {
    let presented = [None, Some("refresh_token=r"), Some("apikey=bad"), Some("x=y")];
    for cookie in presented {
        let layer = service(true);
        let step = match layer.validate(None, cookie) {
            Step::Refresh { presented, .. } => layer.refreshed(None, presented),
            step => step,
        };
        assert!(matches!(step, Step::Finish(Outcome::Refuse(_))));
    }
}
