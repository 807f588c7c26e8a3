//! Who a request comes from: reading its tokens, checking their claims, renewing them, and what
//! to do with the request.

use vstd::prelude::*;
use vstd::string::*;

use crate::credentials::read_credentials;
use crate::text::decimal_string;
use crate::token::{accepted, decode_token, parse_uuid, Signing};

verus! {

/// The claims of an access token.
#[derive(Debug)]
pub struct Claims {
    pub aud: String,
    pub exp: i64,
    pub sub: String,
    pub email: String,
    pub role: String,
}

/// The authenticated user of a request.
#[derive(Debug)]
pub struct AuthState {
    /// The user's UUID, as a number.
    pub user_id: u128,
    pub email: String,
}

/// The tokens that the authentication service hands out for a refresh token.
#[derive(Debug)]
pub struct RefreshResponse {
    pub access_token: String,
    pub refresh_token: String,
    pub expires_in: i64,
}

/// What to ask of the authentication service for a refresh token: a POST to `url` with the header
/// `apikey` and a JSON body that holds `refresh_token`.
#[derive(Debug)]
pub struct RefreshRequest {
    pub url: String,
    pub apikey: String,
    pub refresh_token: String,
}

/// Why a request is turned down.
#[derive(Debug, Clone, Copy, PartialEq, Eq, Structural)]
pub enum Refusal {
    /// A handler asks for the user of a request that has none.
    Unauthenticated,
    /// The token is valid, for another role.
    Unauthorized,
    /// The token is not valid and could not be renewed.
    InvalidToken,
    /// There is no token, and there has to be one.
    NoToken,
}

/// What becomes of a request.
#[derive(Debug)]
pub enum Outcome {
    /// The request goes on, with its user if it has one. Renewed tokens are set as cookies on the
    /// response.
    Forward { state: Option<AuthState>, renewed: Option<RefreshResponse> },
    /// The request is answered here.
    Refuse(Refusal),
}

/// What the claims of a token say of the request.
#[derive(Debug)]
pub enum ClaimsCheck {
    /// The token belongs to this user.
    Accepted(AuthState),
    /// The token is for a role other than an authenticated user's.
    NotAuthenticated,
    /// The token is an authenticated user's, and its subject is no UUID.
    MalformedSubject,
}

/// What comes next in deciding on a request.
#[derive(Debug)]
pub enum Step {
    /// Read the claims of the presented token, which was accepted.
    ReadClaims { token: String, refresh_token: Option<String> },
    /// Ask the authentication service for new tokens. `presented` tells whether the request
    /// presented an access token.
    Refresh { request: RefreshRequest, presented: bool },
    /// Read the claims of the renewed access token, which was accepted.
    ReadRenewed { renewed: RefreshResponse, presented: bool },
    /// The request is decided.
    Finish(Outcome),
    /// An accepted token's subject is no UUID: there is no user to name.
    MalformedSubject,
}

/// The contents of a `RefreshRequest`.
pub struct RefreshRequestModel {
    pub url: Seq<char>,
    pub apikey: Seq<char>,
    pub refresh_token: Seq<char>,
}

/// The contents of a `Step`.
pub enum StepModel {
    ReadClaims { token: Seq<char>, refresh_token: Option<Seq<char>> },
    Refresh { request: RefreshRequestModel, presented: bool },
    ReadRenewed { renewed: RefreshResponse, presented: bool },
    Finish(Outcome),
    MalformedSubject,
}

/// What a layer is set up with.
pub struct Settings {
    pub jwt_secret: Seq<char>,
    pub audience: Seq<char>,
    pub supabase_anon_key: Seq<char>,
    pub reject_no_auth: bool,
}

impl Settings {
    /// Whether an access token is valid when the clock shows `now`.
    pub open spec fn passes(self, token: Seq<char>, now: u64) -> bool {
        crate::token::passes(
            token,
            Signing::Hs256,
            self.jwt_secret,
            "authenticated"@,
            self.audience,
            now,
        )
    }

    /// Whether an access token is valid at some time.
    pub open spec fn signed(self, token: Seq<char>) -> bool {
        exists|now: u64| #[trigger] self.passes(token, now)
    }
}

impl View for RefreshRequest {
    type V = RefreshRequestModel;

    open spec fn view(&self) -> RefreshRequestModel {
        RefreshRequestModel {
            url: self.url@,
            apikey: self.apikey@,
            refresh_token: self.refresh_token@,
        }
    }
}

impl View for Step {
    type V = StepModel;

    open spec fn view(&self) -> StepModel {
        match *self {
            Step::ReadClaims { token, refresh_token } => StepModel::ReadClaims {
                token: token@,
                refresh_token: crate::text::opt_text(refresh_token),
            },
            Step::Refresh { request, presented } => StepModel::Refresh {
                request: request@,
                presented,
            },
            Step::ReadRenewed { renewed, presented } => StepModel::ReadRenewed {
                renewed,
                presented,
            },
            Step::Finish(outcome) => StepModel::Finish(outcome),
            Step::MalformedSubject => StepModel::MalformedSubject,
        }
    }
}

impl Clone for AuthState {
    fn clone(&self) -> (res: Self)
        ensures
            res == *self,
    {
        AuthState { user_id: self.user_id, email: self.email.clone() }
    }
}

impl AuthState {
    /// Gives a handler the user of its request, from what the request holds.
    pub fn from_request_parts(stored: Option<AuthState>) -> (res: Result<AuthState, Refusal>)
        ensures
            res == (match stored {
                Some(state) => Ok::<AuthState, Refusal>(state),
                None => Err(Refusal::Unauthenticated),
            }),
    {
        match stored {
            Some(state) => Ok(state),
            None => Err(Refusal::Unauthenticated),
        }
    }
}

/// How long a refresh token's cookie lasts, in seconds: seven days.
pub const REFRESH_TOKEN_MAX_AGE: i64 = 7 * 24 * 60 * 60;

/// A `Set-Cookie` header that sets the cookie `name` to `value` for `max_age` seconds.
pub open spec fn set_cookie(name: Seq<char>, value: Seq<char>, max_age: int) -> Seq<char> {
    name + "="@ + value + "; Max-Age="@ + crate::text::decimal(max_age) + "; Path=/"@
}

fn set_cookie_string(name: &str, value: &str, max_age: i64) -> (header: String)
    ensures
        header@ == set_cookie(name@, value@, max_age as int),
{
    let mut header = name.to_owned();
    header.append("=");
    header.append(value);
    header.append("; Max-Age=");
    header.append(decimal_string(max_age).as_str());
    header.append("; Path=/");
    header
}

impl RefreshResponse {
    /// The cookies that hold the tokens.
    pub open spec fn cookies(self) -> Seq<Seq<char>> {
        seq![
            set_cookie("apikey"@, self.access_token@, self.expires_in as int),
            set_cookie("refresh_token"@, self.refresh_token@, REFRESH_TOKEN_MAX_AGE as int),
        ]
    }
}

impl Refusal {
    /// The text that answers the request.
    pub open spec fn text(self) -> Seq<char> {
        match self {
            Refusal::Unauthenticated => "Unauthenticated"@,
            Refusal::Unauthorized => "Unauthorized"@,
            Refusal::InvalidToken => "Invalid JWT token"@,
            Refusal::NoToken => "No authorization token found"@,
        }
    }

    /// The cookies that the answer sets: tokens that are no good are dropped.
    pub open spec fn cookies(self) -> Seq<Seq<char>> {
        match self {
            Refusal::InvalidToken => seq![
                set_cookie("apikey"@, seq![], 0),
                set_cookie("refresh_token"@, seq![], 0),
            ],
            _ => seq![],
        }
    }

    /// The HTTP status of the answer.
    pub fn status(&self) -> (status: u16)
        ensures
            status == 401,
    {
        401
    }

    /// The body of the answer.
    pub fn body(&self) -> (body: String)
        ensures
            body@ == self.text(),
    {
        match self {
            Refusal::Unauthenticated => "Unauthenticated".to_owned(),
            Refusal::Unauthorized => "Unauthorized".to_owned(),
            Refusal::InvalidToken => "Invalid JWT token".to_owned(),
            Refusal::NoToken => "No authorization token found".to_owned(),
        }
    }
}

impl Outcome {
    /// The `Set-Cookie` headers that the response gets.
    pub open spec fn cookies(self) -> Seq<Seq<char>> {
        match self {
            Outcome::Forward { renewed: Some(tokens), .. } => tokens.cookies(),
            Outcome::Forward { renewed: None, .. } => seq![],
            Outcome::Refuse(refusal) => refusal.cookies(),
        }
    }

    /// The `Set-Cookie` headers to append to the response, in order.
    pub fn set_cookies(&self) -> (headers: Vec<String>)
        ensures
            crate::text::texts(headers@) == self.cookies(),
    {
        let mut headers: Vec<String> = Vec::new();
        proof {
            reveal_strlit("");
            assert(""@ =~= seq![]);
        }
        match self {
            Outcome::Forward { renewed: Some(tokens), .. } => {
                headers.push(
                    set_cookie_string("apikey", tokens.access_token.as_str(), tokens.expires_in),
                );
                headers.push(
                    set_cookie_string(
                        "refresh_token",
                        tokens.refresh_token.as_str(),
                        REFRESH_TOKEN_MAX_AGE,
                    ),
                );
            },
            Outcome::Refuse(Refusal::InvalidToken) => {
                headers.push(set_cookie_string("apikey", "", 0));
                headers.push(set_cookie_string("refresh_token", "", 0));
            },
            _ => {},
        }
        assert(crate::text::texts(headers@) =~= self.cookies());
        headers
    }
}

/// What the claims of a token say of the request, where `user_id` is the UUID that the subject
/// writes, if it writes one.
pub open spec fn judgement(claims: Claims, user_id: Option<u128>) -> ClaimsCheck {
    if claims.role@ != "authenticated"@ {
        ClaimsCheck::NotAuthenticated
    } else {
        match user_id {
            Some(user_id) => ClaimsCheck::Accepted(AuthState { user_id, email: claims.email }),
            None => ClaimsCheck::MalformedSubject,
        }
    }
}

/// What the claims of a token say of the request.
pub open spec fn claims_check(claims: Claims) -> ClaimsCheck {
    judgement(claims, crate::token::parsed_uuid(claims.sub@))
}

/// Judges the claims of a token, given the UUID that the subject writes.
pub fn judge_claims(claims: Claims, user_id: Option<u128>) -> (check: ClaimsCheck)
    ensures
        check == judgement(claims, user_id),
{
    let authenticated = "authenticated".to_owned();
    if claims.role != authenticated {
        return ClaimsCheck::NotAuthenticated;
    }
    match user_id {
        Some(user_id) => ClaimsCheck::Accepted(AuthState { user_id, email: claims.email }),
        None => ClaimsCheck::MalformedSubject,
    }
}

/// Checks the claims of a token.
pub fn check_claims(claims: Claims) -> (check: ClaimsCheck)
    ensures
        check == claims_check(claims),
{
    let user_id = match parse_uuid(claims.sub.as_str()) {
        Ok(user_id) => Some(user_id),
        Err(_) => None,
    };
    judge_claims(claims, user_id)
}

/// A layer that authenticates the requests to a service.
pub struct SupabaseAuthenticationLayer {
    /// The secret that access tokens are signed with.
    pub jwt_secret: String,
    /// The authentication service's URL, which issues the tokens.
    pub audience: String,
    pub supabase_anon_key: String,
    /// If true, requests that do not have an authenticated user are rejected.
    pub reject_no_auth: bool,
}

/// Sets up a layer for the project at `supabase_url`, which lets requests without a user pass.
pub fn supabase_auth_layer(
    jwt_secret: String,
    supabase_url: String,
    supabase_anon_key: String,
) -> (layer: SupabaseAuthenticationLayer)
    ensures
        layer.settings() == (Settings {
            jwt_secret: jwt_secret@,
            audience: supabase_url@ + "/auth/v1"@,
            supabase_anon_key: supabase_anon_key@,
            reject_no_auth: false,
        }),
{
    SupabaseAuthenticationLayer::new(
        jwt_secret,
        supabase_url.concat("/auth/v1"),
        supabase_anon_key,
        false,
    )
}

impl SupabaseAuthenticationLayer {
    /// What the layer is set up with.
    pub open spec fn settings(self) -> Settings {
        Settings {
            jwt_secret: self.jwt_secret@,
            audience: self.audience@,
            supabase_anon_key: self.supabase_anon_key@,
            reject_no_auth: self.reject_no_auth,
        }
    }

    /// Sets up a layer for the authentication service at `supabase_url`.
    pub fn new(
        jwt_secret: String,
        supabase_url: String,
        supabase_anon_key: String,
        reject_no_auth: bool,
    ) -> (layer: Self)
        ensures
            layer == (SupabaseAuthenticationLayer {
                jwt_secret,
                audience: supabase_url,
                supabase_anon_key,
                reject_no_auth,
            }),
    {
        SupabaseAuthenticationLayer {
            jwt_secret,
            audience: supabase_url,
            supabase_anon_key,
            reject_no_auth,
        }
    }

    /// Puts the layer around the service `inner`.
    pub fn layer<S>(&self, inner: S) -> (service: SupabaseAuthentication<S>)
        ensures
            service.inner == inner,
            service.settings() == self.settings(),
    {
        SupabaseAuthentication {
            inner,
            jwt_secret: self.jwt_secret.clone(),
            audience: self.audience.clone(),
            supabase_anon_key: self.supabase_anon_key.clone(),
            reject_no_auth: self.reject_no_auth,
        }
    }
}

impl Clone for SupabaseAuthenticationLayer {
    fn clone(&self) -> (res: Self)
        ensures
            res == *self,
    {
        SupabaseAuthenticationLayer {
            jwt_secret: self.jwt_secret.clone(),
            audience: self.audience.clone(),
            supabase_anon_key: self.supabase_anon_key.clone(),
            reject_no_auth: self.reject_no_auth,
        }
    }
}

/// A service whose requests are authenticated.
pub struct SupabaseAuthentication<S> {
    pub inner: S,
    pub jwt_secret: String,
    pub audience: String,
    pub supabase_anon_key: String,
    pub reject_no_auth: bool,
}

impl<S: Clone> Clone for SupabaseAuthentication<S> {
    fn clone(&self) -> (res: Self)
        ensures
            cloned::<S>(self.inner, res.inner),
            res.settings() == self.settings(),
    {
        SupabaseAuthentication {
            inner: self.inner.clone(),
            jwt_secret: self.jwt_secret.clone(),
            audience: self.audience.clone(),
            supabase_anon_key: self.supabase_anon_key.clone(),
            reject_no_auth: self.reject_no_auth,
        }
    }
}

/// What becomes of a request for which there is no valid token. `presented` tells whether it
/// presented one.
pub open spec fn give_up(settings: Settings, presented: bool) -> Outcome {
    if presented {
        Outcome::Refuse(Refusal::InvalidToken)
    } else if settings.reject_no_auth {
        Outcome::Refuse(Refusal::NoToken)
    } else {
        Outcome::Forward { state: None, renewed: None }
    }
}

/// The request for new tokens.
pub open spec fn refresh_request(
    settings: Settings,
    refresh_token: Seq<char>,
) -> RefreshRequestModel {
    RefreshRequestModel {
        url: settings.audience + "/token?grant_type=refresh_token"@,
        apikey: settings.supabase_anon_key,
        refresh_token,
    }
}

/// The step after a request turned out to have no valid access token.
pub open spec fn without_token(
    settings: Settings,
    refresh_token: Option<Seq<char>>,
    presented: bool,
) -> StepModel {
    match refresh_token {
        Some(token) => StepModel::Refresh { request: refresh_request(settings, token), presented },
        None => StepModel::Finish(give_up(settings, presented)),
    }
}

/// The step after the presented token was decoded, and accepted or turned down.
pub open spec fn after_decode(
    settings: Settings,
    token: Seq<char>,
    accepted: bool,
    refresh_token: Option<Seq<char>>,
) -> StepModel {
    if accepted {
        StepModel::ReadClaims { token, refresh_token }
    } else {
        without_token(settings, refresh_token, true)
    }
}

/// The step after the presented token's claims were checked, or could not be read.
pub open spec fn after_check(
    settings: Settings,
    check: Option<ClaimsCheck>,
    refresh_token: Option<Seq<char>>,
) -> StepModel {
    match check {
        Some(ClaimsCheck::Accepted(state)) => StepModel::Finish(
            Outcome::Forward { state: Some(state), renewed: None },
        ),
        Some(ClaimsCheck::NotAuthenticated) => StepModel::Finish(
            Outcome::Refuse(Refusal::Unauthorized),
        ),
        Some(ClaimsCheck::MalformedSubject) => StepModel::MalformedSubject,
        None => without_token(settings, refresh_token, true),
    }
}

/// The step after the renewed token was decoded, and accepted or turned down.
pub open spec fn after_renewed_decode(
    settings: Settings,
    accepted: bool,
    renewed: RefreshResponse,
    presented: bool,
) -> StepModel {
    if accepted {
        StepModel::ReadRenewed { renewed, presented }
    } else {
        StepModel::Finish(give_up(settings, presented))
    }
}

/// The step after the renewed token's claims were checked, or could not be read.
pub open spec fn after_renewed_check(
    settings: Settings,
    check: Option<ClaimsCheck>,
    renewed: RefreshResponse,
    presented: bool,
) -> StepModel {
    match check {
        Some(ClaimsCheck::Accepted(state)) => StepModel::Finish(
            Outcome::Forward { state: Some(state), renewed: Some(renewed) },
        ),
        Some(ClaimsCheck::MalformedSubject) => StepModel::MalformedSubject,
        _ => StepModel::Finish(give_up(settings, presented)),
    }
}

/// What the claims of a token say of the request, where there are claims.
pub open spec fn opt_claims_check(claims: Option<Claims>) -> Option<ClaimsCheck> {
    match claims {
        Some(claims) => Some(claims_check(claims)),
        None => None,
    }
}

impl<S> SupabaseAuthentication<S> {
    /// What the layer around the service is set up with.
    pub open spec fn settings(self) -> Settings {
        Settings {
            jwt_secret: self.jwt_secret@,
            audience: self.audience@,
            supabase_anon_key: self.supabase_anon_key@,
            reject_no_auth: self.reject_no_auth,
        }
    }

    /// Decodes an access token, and tells whether it was accepted: whether it is valid when the
    /// clock shows what it shows now.
    fn decode(&self, token: &str) -> (accepted: bool)
        ensures
            exists|now: u64| accepted == #[trigger] self.settings().passes(token@, now),
    {
        let decoded = decode_token(
            token,
            Signing::Hs256,
            self.jwt_secret.as_str(),
            "authenticated",
            self.audience.as_str(),
        );
        proof {
            let now = choose|now: u64|
                (decoded is Ok) == #[trigger] crate::token::passes(
                    token@,
                    Signing::Hs256,
                    self.jwt_secret@,
                    "authenticated"@,
                    self.audience@,
                    now,
                );
            assert((decoded is Ok) == self.settings().passes(token@, now));
        }
        accepted(decoded)
    }

    fn give_up(&self, presented: bool) -> (outcome: Outcome)
        ensures
            outcome == give_up(self.settings(), presented),
    {
        if presented {
            Outcome::Refuse(Refusal::InvalidToken)
        } else if self.reject_no_auth {
            Outcome::Refuse(Refusal::NoToken)
        } else {
            Outcome::Forward { state: None, renewed: None }
        }
    }

    /// Goes on without a valid access token: with the refresh token if there is one.
    fn without_token(&self, refresh_token: Option<String>, presented: bool) -> (step: Step)
        ensures
            step@ == without_token(
                self.settings(),
                crate::text::opt_text(refresh_token),
                presented,
            ),
    {
        match refresh_token {
            Some(refresh_token) => Step::Refresh {
                request: RefreshRequest {
                    url: self.audience.clone().concat("/token?grant_type=refresh_token"),
                    apikey: self.supabase_anon_key.clone(),
                    refresh_token,
                },
                presented,
            },
            None => Step::Finish(self.give_up(presented)),
        }
    }

    /// Starts deciding on a request with the given `Authorization` and `Cookie` headers.
    ///
    /// Whether a presented token is valid is judged by what the clock shows at some point of the
    /// call: a valid one is handed on, and with an invalid one the request goes on without it.
    pub fn validate(&self, authorization: Option<&str>, cookie: Option<&str>) -> (step: Step)
        ensures
            ({
                let tokens = crate::credentials::credentials(
                    crate::credentials::opt_header(authorization),
                    crate::credentials::opt_header(cookie),
                );
                match tokens.access_token {
                    Some(token) => exists|now: u64|
                        step@ == after_decode(
                            self.settings(),
                            token,
                            #[trigger] self.settings().passes(token, now),
                            tokens.refresh_token,
                        ),
                    None => step@ == without_token(self.settings(), tokens.refresh_token, false),
                }
            }),
    {
        let tokens = read_credentials(authorization, cookie);
        let ghost model = tokens@;
        match tokens.access_token {
            Some(token) => {
                let accepted = self.decode(token.as_str());
                let step = self.token_decoded(token, accepted, tokens.refresh_token);
                proof {
                    let presented = model.access_token->0;
                    assert(presented == token@);
                    let now = choose|now: u64|
                        accepted == #[trigger] self.settings().passes(presented, now);
                    assert(step@ == after_decode(
                        self.settings(),
                        presented,
                        self.settings().passes(presented, now),
                        model.refresh_token,
                    ));
                }
                step
            },
            None => self.without_token(tokens.refresh_token, false),
        }
    }

    /// Goes on after the presented token was decoded, and accepted or turned down.
    pub fn token_decoded(
        &self,
        token: String,
        accepted: bool,
        refresh_token: Option<String>,
    ) -> (step: Step)
        ensures
            step@ == after_decode(
                self.settings(),
                token@,
                accepted,
                crate::text::opt_text(refresh_token),
            ),
    {
        if accepted {
            Step::ReadClaims { token, refresh_token }
        } else {
            self.without_token(refresh_token, true)
        }
    }

    /// Goes on after `Step::ReadClaims`, with the claims or without.
    pub fn claims_read(&self, claims: Option<Claims>, refresh_token: Option<String>) -> (step: Step)
        ensures
            step@ == after_check(
                self.settings(),
                opt_claims_check(claims),
                crate::text::opt_text(refresh_token),
            ),
    {
        let check = match claims {
            Some(claims) => Some(check_claims(claims)),
            None => None,
        };
        self.claims_checked(check, refresh_token)
    }

    /// Goes on after the presented token's claims were checked, or could not be read.
    pub fn claims_checked(
        &self,
        check: Option<ClaimsCheck>,
        refresh_token: Option<String>,
    ) -> (step: Step)
        ensures
            step@ == after_check(self.settings(), check, crate::text::opt_text(refresh_token)),
    {
        match check {
            Some(ClaimsCheck::Accepted(state)) => Step::Finish(
                Outcome::Forward { state: Some(state), renewed: None },
            ),
            Some(ClaimsCheck::NotAuthenticated) => Step::Finish(
                Outcome::Refuse(Refusal::Unauthorized),
            ),
            Some(ClaimsCheck::MalformedSubject) => Step::MalformedSubject,
            None => self.without_token(refresh_token, true),
        }
    }

    /// Goes on after `Step::Refresh`, with the new tokens or without.
    ///
    /// Whether the new token is valid is judged by the clock, as for a presented one.
    pub fn refreshed(&self, renewed: Option<RefreshResponse>, presented: bool) -> (step: Step)
        ensures
            match renewed {
                Some(renewed) => exists|now: u64|
                    step@ == after_renewed_decode(
                        self.settings(),
                        #[trigger] self.settings().passes(renewed.access_token@, now),
                        renewed,
                        presented,
                    ),
                None => step@ == StepModel::Finish(give_up(self.settings(), presented)),
            },
    {
        match renewed {
            Some(renewed) => {
                let accepted = self.decode(renewed.access_token.as_str());
                self.renewed_decoded(accepted, renewed, presented)
            },
            None => Step::Finish(self.give_up(presented)),
        }
    }

    /// Goes on after the renewed token was decoded, and accepted or turned down.
    pub fn renewed_decoded(
        &self,
        accepted: bool,
        renewed: RefreshResponse,
        presented: bool,
    ) -> (step: Step)
        ensures
            step@ == after_renewed_decode(self.settings(), accepted, renewed, presented),
    {
        if accepted {
            Step::ReadRenewed { renewed, presented }
        } else {
            Step::Finish(self.give_up(presented))
        }
    }

    /// Goes on after `Step::ReadRenewed`, with the claims or without.
    pub fn renewed_claims_read(
        &self,
        claims: Option<Claims>,
        renewed: RefreshResponse,
        presented: bool,
    ) -> (step: Step)
        ensures
            step@ == after_renewed_check(
                self.settings(),
                opt_claims_check(claims),
                renewed,
                presented,
            ),
    {
        let check = match claims {
            Some(claims) => Some(check_claims(claims)),
            None => None,
        };
        self.renewed_claims_checked(check, renewed, presented)
    }

    /// Goes on after the renewed token's claims were checked, or could not be read.
    pub fn renewed_claims_checked(
        &self,
        check: Option<ClaimsCheck>,
        renewed: RefreshResponse,
        presented: bool,
    ) -> (step: Step)
        ensures
            step@ == after_renewed_check(self.settings(), check, renewed, presented),
    {
        match check {
            Some(ClaimsCheck::Accepted(state)) => Step::Finish(
                Outcome::Forward { state: Some(state), renewed: Some(renewed) },
            ),
            Some(ClaimsCheck::MalformedSubject) => Step::MalformedSubject,
            _ => Step::Finish(self.give_up(presented)),
        }
    }
}

} // verus!
