//! What holds of authentication as a whole.

use vstd::prelude::*;

use crate::auth::{
    AuthState, Claims, ClaimsCheck, Outcome, RefreshRequestModel, RefreshResponse, Refusal,
    Settings, Step, StepModel, SupabaseAuthentication, SupabaseAuthenticationLayer,
};
use crate::credentials::CredentialsModel;

verus! {

/// What comes back while one request is decided: whether the presented token is accepted, the
/// claims read out of it, the renewed tokens, and the same of the renewed token.
pub struct Replies {
    pub accepted: bool,
    pub claims: Option<Claims>,
    pub renewed: Option<RefreshResponse>,
    pub renewed_accepted: bool,
    pub renewed_claims: Option<Claims>,
}

/// The first step for a request with the given tokens.
pub open spec fn first_step(
    settings: Settings,
    tokens: CredentialsModel,
    replies: Replies,
) -> StepModel {
    match tokens.access_token {
        Some(token) => crate::auth::after_decode(
            settings,
            token,
            replies.accepted,
            tokens.refresh_token,
        ),
        None => crate::auth::without_token(settings, tokens.refresh_token, false),
    }
}

/// The step that follows `step`.
pub open spec fn next_step(
    settings: Settings,
    step: StepModel,
    replies: Replies,
) -> StepModel {
    match step {
        StepModel::ReadClaims { refresh_token, .. } => crate::auth::after_check(
            settings,
            crate::auth::opt_claims_check(replies.claims),
            refresh_token,
        ),
        StepModel::Refresh { presented, .. } => match replies.renewed {
            Some(renewed) => crate::auth::after_renewed_decode(
                settings,
                replies.renewed_accepted,
                renewed,
                presented,
            ),
            None => StepModel::Finish(crate::auth::give_up(settings, presented)),
        },
        StepModel::ReadRenewed { renewed, presented } =>
            crate::auth::after_renewed_check(
            settings,
            crate::auth::opt_claims_check(replies.renewed_claims),
            renewed,
            presented,
        ),
        decided => decided,
    }
}

/// What a request with the given tokens comes to.
pub open spec fn decision(
    settings: Settings,
    tokens: CredentialsModel,
    replies: Replies,
) -> StepModel {
    let first = first_step(settings, tokens, replies);
    let second = next_step(settings, first, replies);
    let third = next_step(settings, second, replies);
    next_step(settings, third, replies)
}

/// Every request is decided within three further steps, whatever comes back.
pub proof fn every_request_is_decided(
    settings: Settings,
    tokens: CredentialsModel,
    replies: Replies,
)
    ensures
        ({
            let last = decision(settings, tokens, replies);
            last is Finish || last is MalformedSubject
        }),
{
}

/// A layer that rejects requests without a user forwards no request without one.
pub proof fn no_request_passes_without_a_user(
    settings: Settings,
    tokens: CredentialsModel,
    replies: Replies,
)
    requires
        settings.reject_no_auth,
    ensures
        decision(settings, tokens, replies) matches StepModel::Finish(
            Outcome::Forward { state, .. },
        ) ==> state is Some,
{
}

/// A request that presents no token at all passes without a user, unless the layer rejects such
/// requests.
pub proof fn requests_without_tokens(
    settings: Settings,
    tokens: CredentialsModel,
    replies: Replies,
)
    requires
        tokens.access_token is None,
        tokens.refresh_token is None,
    ensures
        decision(settings, tokens, replies) == StepModel::Finish(
            if settings.reject_no_auth {
                Outcome::Refuse(Refusal::NoToken)
            } else {
                Outcome::Forward { state: None, renewed: None }
            },
        ),
{
}

/// The user of a forwarded request is the one that an authenticated user's token names: the
/// presented token, or the renewed one where tokens were renewed.
pub proof fn a_user_comes_from_a_token(
    settings: Settings,
    tokens: CredentialsModel,
    replies: Replies,
    state: AuthState,
    renewed: Option<RefreshResponse>,
)
    requires
        decision(settings, tokens, replies) == StepModel::Finish(
            Outcome::Forward { state: Some(state), renewed },
        ),
    ensures
        ({
            let claims = if renewed is Some {
                replies.renewed_claims
            } else {
                replies.claims
            };
            &&& claims matches Some(claims) ==> {
                &&& claims.role@ == "authenticated"@
                &&& crate::token::parsed_uuid(claims.sub@) == Some(state.user_id)
                &&& claims.email == state.email
            }
            &&& claims is Some
        }),
        renewed is None ==> tokens.access_token is Some && replies.accepted,
        renewed is Some ==> {
            &&& renewed == replies.renewed
            &&& replies.renewed_accepted
            &&& tokens.refresh_token is Some
        },
{
}

/// Whether no token was accepted that is valid at no time: neither the presented token nor the
/// renewed one.
pub open spec fn only_signed_are_accepted(
    settings: Settings,
    tokens: CredentialsModel,
    replies: Replies,
) -> bool {
    &&& tokens.access_token matches Some(token) ==> (replies.accepted ==> settings.signed(token))
    &&& replies.renewed matches Some(renewed) ==> (replies.renewed_accepted ==> settings.signed(
        renewed.access_token@,
    ))
}

/// The user of a forwarded request comes from a token that the project signed: the presented
/// token, or the renewed one where tokens were renewed.
pub proof fn a_user_comes_from_a_signed_token(
    settings: Settings,
    tokens: CredentialsModel,
    replies: Replies,
    state: AuthState,
    renewed: Option<RefreshResponse>,
)
    requires
        only_signed_are_accepted(settings, tokens, replies),
        decision(settings, tokens, replies) == StepModel::Finish(
            Outcome::Forward { state: Some(state), renewed },
        ),
    ensures
        match renewed {
            Some(renewed) => settings.signed(renewed.access_token@),
            None => tokens.access_token matches Some(token) && settings.signed(token),
        },
{
}

/// A token that is judged by the clock, whatever the clock shows, is accepted only where the project
/// signed it.
pub proof fn an_accepted_token_is_signed(settings: Settings, token: Seq<char>, accepted: bool)
    requires
        exists|now: u64| accepted == #[trigger] settings.passes(token, now),
    ensures
        accepted ==> settings.signed(token),
{
}

/// A presented token that names an authenticated user settles the request: nothing is renewed and
/// no cookie is set, whatever a renewal would have given.
pub proof fn a_valid_token_is_enough(
    settings: Settings,
    tokens: CredentialsModel,
    replies: Replies,
    state: AuthState,
)
    requires
        tokens.access_token is Some,
        replies.accepted,
        crate::auth::opt_claims_check(replies.claims) == Some(ClaimsCheck::Accepted(state)),
    ensures
        decision(settings, tokens, replies) == StepModel::Finish(
            Outcome::Forward { state: Some(state), renewed: None },
        ),
        (Outcome::Forward { state: Some(state), renewed: None }).cookies().len() == 0,
{
}

/// A presented token for another role is refused, though a refresh token is at hand.
pub proof fn another_role_is_refused(
    settings: Settings,
    tokens: CredentialsModel,
    replies: Replies,
)
    requires
        tokens.access_token is Some,
        replies.accepted,
        crate::auth::opt_claims_check(replies.claims) == Some(ClaimsCheck::NotAuthenticated),
    ensures
        decision(settings, tokens, replies) == StepModel::Finish(
            Outcome::Refuse(Refusal::Unauthorized),
        ),
{
}

/// A presented token that is not valid, and for which no valid token is to be had, is refused,
/// whether or not the layer rejects requests without a user, and its cookies are dropped.
pub proof fn an_invalid_token_is_refused(
    settings: Settings,
    tokens: CredentialsModel,
    replies: Replies,
)
    requires
        tokens.access_token is Some,
        !replies.accepted || replies.claims is None,
        ({
            ||| tokens.refresh_token is None
            ||| replies.renewed is None
            ||| !replies.renewed_accepted
            ||| replies.renewed_claims is None
            ||| crate::auth::opt_claims_check(replies.renewed_claims) == Some(
                ClaimsCheck::NotAuthenticated,
            )
        }),
    ensures
        decision(settings, tokens, replies) == StepModel::Finish(
            Outcome::Refuse(Refusal::InvalidToken),
        ),
        Outcome::Refuse(Refusal::InvalidToken).cookies() == seq![
            crate::auth::set_cookie("apikey"@, seq![], 0),
            crate::auth::set_cookie("refresh_token"@, seq![], 0),
        ],
{
}

/// A renewed token that names an authenticated user lets the request pass, and the new tokens go
/// back as cookies.
pub proof fn a_renewed_token_is_enough(
    settings: Settings,
    tokens: CredentialsModel,
    replies: Replies,
    renewed: RefreshResponse,
    state: AuthState,
)
    requires
        tokens.access_token is None || !replies.accepted || replies.claims is None,
        tokens.refresh_token is Some,
        replies.renewed == Some(renewed),
        replies.renewed_accepted,
        crate::auth::opt_claims_check(replies.renewed_claims) == Some(
            ClaimsCheck::Accepted(state),
        ),
    ensures
        decision(settings, tokens, replies) == StepModel::Finish(
            Outcome::Forward { state: Some(state), renewed: Some(renewed) },
        ),
        (Outcome::Forward { state: Some(state), renewed: Some(renewed) }).cookies()
            == renewed.cookies(),
{
}

/// A token in the `Authorization` header hides the cookies, and the refresh token among them.
pub proof fn a_bearer_token_hides_cookies(
    authorization: Seq<char>,
    cookie: Option<Seq<char>>,
)
    requires
        crate::credentials::bearer_token(authorization) is Some,
    ensures
        crate::credentials::credentials(Some(authorization), cookie)
            == crate::credentials::credentials(Some(authorization), None),
        crate::credentials::credentials(Some(authorization), cookie).refresh_token is None,
{
}

/// The token of a bearer header is read back, if it does not itself say `Bearer` and no white space
/// surrounds it.
pub proof fn a_bearer_token_is_read_back(token: Seq<char>)
    requires
        crate::text::find(token, "Bearer"@) is None,
        crate::text::trim(token) == token,
    ensures
        crate::credentials::bearer_token("Bearer "@ + token) == Some(token),
{
    reveal_strlit("Bearer");
    reveal_strlit("Bearer ");
    let header = "Bearer "@ + token;
    let rest = seq![' '] + token;
    assert(header.take(6) =~= "Bearer"@);
    assert(header.skip(6) =~= rest);
    assert(rest.skip(1) =~= token);
    assert(rest.len() >= 6 ==> rest.take(6)[0] != "Bearer"@[0]);
    assert(crate::text::find(rest, "Bearer"@) is None);
    assert(crate::text::split(rest, "Bearer"@) == seq![rest]);
    assert(crate::text::find(header, "Bearer"@) == Some(0int));
    assert(crate::text::split(header, "Bearer"@) =~= seq![header.take(0), rest]);
}

/// Whether a cookie can hold `value` as it stands: a semicolon would end it, and white space at
/// its end would be lost.
pub open spec fn fits_cookie(value: Seq<char>) -> bool {
    &&& !value.contains(';')
    &&& value.len() > 0 ==> !crate::text::is_white(value.last())
}

/// The cookie that a client keeps of a `Set-Cookie` header: what stands before its attributes.
pub open spec fn kept_cookie(header: Seq<char>) -> Seq<char> {
    crate::text::split(header, ";"@)[0]
}

proof fn lemma_split_first(a: Seq<char>, b: Seq<char>)
    requires
        !a.contains(';'),
    ensures
        crate::text::split(a, ";"@) == seq![a],
        crate::text::split(a + ";"@ + b, ";"@) == seq![a] + crate::text::split(b, ";"@),
{
    reveal_strlit(";");
    let pat = ";"@;
    assert(pat =~= seq![';']);
    crate::text::lemma_find(a, pat);
    if let Some(i) = crate::text::find(a, pat) {
        assert(a.subrange(i, i + 1)[0] == a[i]);
        assert(a.contains(';'));
    }
    let s = a + pat + b;
    let n = a.len() as int;
    crate::text::lemma_find(s, pat);
    assert(s.subrange(n, n + 1) =~= pat);
    let i = crate::text::find(s, pat)->0;
    if i < n {
        assert(s.subrange(i, i + 1)[0] == a[i]);
        assert(a.contains(';'));
    }
    assert(i == n);
    assert(s.take(n) =~= a);
    assert(s.skip(n + 1) =~= b);
}

proof fn lemma_kept_cookie(name: Seq<char>, value: Seq<char>, max_age: int)
    requires
        !name.contains(';'),
        !value.contains(';'),
    ensures
        kept_cookie(crate::auth::set_cookie(name, value, max_age)) == name + "="@ + value,
{
    reveal_strlit("=");
    reveal_strlit(";");
    reveal_strlit("; Max-Age=");
    reveal_strlit(" Max-Age=");
    let kept = name + "="@ + value;
    assert forall|i: int| 0 <= i < kept.len() implies kept[i] != ';' by {
        if i < name.len() {
            assert(name.contains(name[i]));
        } else if i > name.len() {
            assert(value.contains(value[i - name.len() - 1]));
        }
    }
    let rest = " Max-Age="@ + crate::text::decimal(max_age) + "; Path=/"@;
    assert("; Max-Age="@ =~= ";"@ + " Max-Age="@);
    assert(crate::auth::set_cookie(name, value, max_age) =~= kept + ";"@ + rest);
    lemma_split_first(kept, rest);
}

proof fn lemma_trim_kept(s: Seq<char>)
    requires
        s.len() > 0,
        !crate::text::is_white(s[0]),
        !crate::text::is_white(s.last()),
    ensures
        crate::text::trim(s) == s,
        crate::text::trim(" "@ + s) == s,
{
    reveal_strlit(" ");
    assert((" "@ + s).skip(1) =~= s);
    assert(crate::text::trim_start(s) == s);
}

/// The tokens that renewal sets as cookies are the tokens that the next request with these
/// cookies presents.
pub proof fn renewed_tokens_are_read_back(tokens: RefreshResponse)
    requires
        fits_cookie(tokens.access_token@),
        fits_cookie(tokens.refresh_token@),
    ensures
        crate::credentials::credentials(
            None,
            Some(kept_cookie(tokens.cookies()[0]) + "; "@ + kept_cookie(tokens.cookies()[1])),
        ) == (CredentialsModel {
            access_token: Some(tokens.access_token@),
            refresh_token: Some(tokens.refresh_token@),
        }),
{
    reveal_strlit("apikey");
    reveal_strlit("refresh_token");
    reveal_strlit("apikey=");
    reveal_strlit("refresh_token=");
    reveal_strlit("=");
    reveal_strlit(";");
    reveal_strlit(" ");
    reveal_strlit("; ");
    let access = tokens.access_token@;
    let refresh = tokens.refresh_token@;
    lemma_kept_cookie("apikey"@, access, tokens.expires_in as int);
    lemma_kept_cookie("refresh_token"@, refresh, crate::auth::REFRESH_TOKEN_MAX_AGE as int);
    let first = "apikey="@ + access;
    let second = "refresh_token="@ + refresh;
    assert("apikey"@ + "="@ + access =~= first);
    assert("refresh_token"@ + "="@ + refresh =~= second);
    let header = first + "; "@ + second;
    assert(header =~= first + ";"@ + (" "@ + second));
    assert forall|i: int| 0 <= i < first.len() implies first[i] != ';' by {
        if i >= 7 {
            assert(access.contains(access[i - 7]));
        }
    }
    assert forall|i: int| 0 <= i < (" "@ + second).len() implies (" "@ + second)[i] != ';' by {
        if i >= 15 {
            assert(refresh.contains(refresh[i - 15]));
        }
    }
    lemma_split_first(first, " "@ + second);
    lemma_split_first(" "@ + second, seq![]);
    let parts = crate::text::split(header, ";"@);
    assert(parts =~= seq![first, " "@ + second]);
    lemma_trim_kept(first);
    lemma_trim_kept(second);
    assert(first.skip(7) =~= access);
    assert(second.skip(14) =~= refresh);
    assert(!("apikey="@.is_prefix_of(second))) by {
        assert(second[0] == 'r');
        assert("apikey="@[0] == 'a');
    }
    assert(parts.drop_last() =~= seq![first]);
    assert(parts.drop_last().drop_last() =~= seq![]);
    reveal_with_fuel(crate::credentials::cookie_tokens, 3);
}

/// Claims for the role of an authenticated user are accepted where their subject is a UUID, for
/// that user and under the email that they name, whatever their audience and expiry say. Claims
/// for any other role are not an authenticated user's, whatever else they say.
pub proof fn the_role_and_the_subject_decide(claims: Claims, id: u128)
    ensures
        claims.role@ == "authenticated"@ ==> {
            &&& crate::auth::judgement(claims, Some(id)) == ClaimsCheck::Accepted(
                AuthState { user_id: id, email: claims.email },
            )
            &&& crate::auth::judgement(claims, None) == ClaimsCheck::MalformedSubject
            &&& crate::token::parsed_uuid(claims.sub@) == Some(id) ==> crate::auth::claims_check(
                claims,
            ) == ClaimsCheck::Accepted(AuthState { user_id: id, email: claims.email })
            &&& crate::token::parsed_uuid(claims.sub@) is None ==> crate::auth::claims_check(claims)
                == ClaimsCheck::MalformedSubject
        },
        claims.role@ != "authenticated"@ ==> {
            &&& crate::auth::judgement(claims, Some(id)) == ClaimsCheck::NotAuthenticated
            &&& crate::auth::judgement(claims, None) == ClaimsCheck::NotAuthenticated
            &&& crate::auth::claims_check(claims) == ClaimsCheck::NotAuthenticated
        },
{
}

/// Two tokens whose claims agree in role, subject and email are judged alike.
pub proof fn nothing_else_in_the_claims_counts(first: Claims, second: Claims)
    requires
        first.role@ == second.role@,
        first.sub@ == second.sub@,
        first.email == second.email,
    ensures
        crate::auth::claims_check(first) == crate::auth::claims_check(second),
{
}

/// A request whose presented token is accepted, with claims for an authenticated user, is
/// forwarded with that user and no new cookies, whatever its other tokens and replies are.
pub proof fn an_authenticated_user_passes(
    settings: Settings,
    tokens: CredentialsModel,
    replies: Replies,
    claims: Claims,
    id: u128,
)
    requires
        tokens.access_token is Some,
        replies.accepted,
        replies.claims == Some(claims),
        claims.role@ == "authenticated"@,
        crate::token::parsed_uuid(claims.sub@) == Some(id),
    ensures
        decision(settings, tokens, replies) == StepModel::Finish(
            Outcome::Forward {
                state: Some(AuthState { user_id: id, email: claims.email }),
                renewed: None,
            },
        ),
{
}

/// A request whose presented token is accepted for any other role is refused as unauthorized.
pub proof fn any_other_role_is_unauthorized(
    settings: Settings,
    tokens: CredentialsModel,
    replies: Replies,
    claims: Claims,
)
    requires
        tokens.access_token is Some,
        replies.accepted,
        replies.claims == Some(claims),
        claims.role@ != "authenticated"@,
    ensures
        decision(settings, tokens, replies) == StepModel::Finish(
            Outcome::Refuse(Refusal::Unauthorized),
        ),
{
}

/// Whether a request is without a valid access token of its own: it presents none, or one that is
/// turned down, or one whose claims cannot be read.
pub open spec fn needs_renewal(tokens: CredentialsModel, replies: Replies) -> bool {
    tokens.access_token is None || !replies.accepted || replies.claims is None
}

/// A request without a valid access token passes with the user that its renewed token names, and
/// the renewed tokens go back with the response.
pub proof fn a_renewed_user_passes(
    settings: Settings,
    tokens: CredentialsModel,
    replies: Replies,
    renewed: RefreshResponse,
    claims: Claims,
    id: u128,
)
    requires
        needs_renewal(tokens, replies),
        tokens.refresh_token is Some,
        replies.renewed == Some(renewed),
        replies.renewed_accepted,
        replies.renewed_claims == Some(claims),
        claims.role@ == "authenticated"@,
        crate::token::parsed_uuid(claims.sub@) == Some(id),
    ensures
        decision(settings, tokens, replies) == StepModel::Finish(
            Outcome::Forward {
                state: Some(AuthState { user_id: id, email: claims.email }),
                renewed: Some(renewed),
            },
        ),
{
}

/// A request without a valid access token that gets none by renewal either is refused as invalid
/// where it presented one. Where it presented none, it is refused for that by a layer that rejects
/// such requests, and passes without a user through any other.
pub proof fn a_request_that_cannot_be_renewed(
    settings: Settings,
    tokens: CredentialsModel,
    replies: Replies,
)
    requires
        needs_renewal(tokens, replies),
        ({
            ||| tokens.refresh_token is None
            ||| replies.renewed is None
            ||| !replies.renewed_accepted
            ||| replies.renewed_claims is None
            ||| replies.renewed_claims->0.role@ != "authenticated"@
        }),
    ensures
        decision(settings, tokens, replies) == StepModel::Finish(
            if tokens.access_token is Some {
                Outcome::Refuse(Refusal::InvalidToken)
            } else if settings.reject_no_auth {
                Outcome::Refuse(Refusal::NoToken)
            } else {
                Outcome::Forward { state: None, renewed: None }
            },
        ),
{
}

/// A token for an authenticated user whose subject is no UUID names nobody, presented or renewed.
pub proof fn a_subject_that_is_no_uuid_names_nobody(
    settings: Settings,
    tokens: CredentialsModel,
    replies: Replies,
    claims: Claims,
)
    requires
        claims.role@ == "authenticated"@,
        crate::token::parsed_uuid(claims.sub@) is None,
    ensures
        tokens.access_token is Some && replies.accepted && replies.claims == Some(claims)
            ==> decision(settings, tokens, replies) is MalformedSubject,
        needs_renewal(tokens, replies) && tokens.refresh_token is Some && replies.renewed is Some
            && replies.renewed_accepted && replies.renewed_claims == Some(claims) ==> decision(
            settings,
            tokens,
            replies,
        ) is MalformedSubject,
{
}

/// Whenever new tokens are asked for, whether or not the request presented an access token, they
/// are asked of the authentication service's token endpoint for refresh tokens, under the
/// project's key, with the refresh token that the request presented.
pub proof fn new_tokens_are_asked_for_with_the_refresh_token(
    settings: Settings,
    tokens: CredentialsModel,
    replies: Replies,
)
    ensures
        ({
            let first = first_step(settings, tokens, replies);
            let second = next_step(settings, first, replies);
            &&& first matches StepModel::Refresh { request, presented } ==> {
                &&& request.url == settings.audience + "/token?grant_type=refresh_token"@
                &&& request.apikey == settings.supabase_anon_key
                &&& tokens.refresh_token == Some(request.refresh_token)
                &&& presented == (tokens.access_token is Some)
            }
            &&& first !is Refresh ==> (second matches StepModel::Refresh { request, presented }
                ==> {
                &&& request.url == settings.audience + "/token?grant_type=refresh_token"@
                &&& request.apikey == settings.supabase_anon_key
                &&& tokens.refresh_token == Some(request.refresh_token)
                &&& presented == (tokens.access_token is Some)
            })
        }),
{
}

/// Whatever step comes before, the step that asks for new tokens asks for them in the same way:
/// with the refresh token of the step before.
pub proof fn every_step_asks_for_new_tokens_alike(
    settings: Settings,
    step: StepModel,
    replies: Replies,
)
    requires
        step !is Refresh,
    ensures
        next_step(settings, step, replies) matches StepModel::Refresh { request, presented } ==> {
            &&& request.url == settings.audience + "/token?grant_type=refresh_token"@
            &&& request.apikey == settings.supabase_anon_key
            &&& step matches StepModel::ReadClaims { refresh_token, .. } && refresh_token == Some(
                request.refresh_token,
            )
            &&& presented
        },
{
}

/// A refresh token is put to use, and only where there is no valid access token: at once where no
/// token was presented or the presented one was turned down, and after the claims where these
/// cannot be read.
pub proof fn a_refresh_token_is_put_to_use(
    settings: Settings,
    tokens: CredentialsModel,
    replies: Replies,
)
    ensures
        ({
            let first = first_step(settings, tokens, replies);
            let second = next_step(settings, first, replies);
            &&& first is Refresh <==> tokens.refresh_token is Some && (tokens.access_token is None
                || !replies.accepted)
            &&& first !is Refresh ==> (second is Refresh <==> tokens.refresh_token is Some
                && tokens.access_token is Some && replies.accepted && replies.claims is None)
        }),
{
}

/// An accepted token is handed on as it was presented, with the refresh token beside it.
pub proof fn an_accepted_token_is_handed_on(
    settings: Settings,
    tokens: CredentialsModel,
    replies: Replies,
    token: Seq<char>,
)
    requires
        tokens.access_token == Some(token),
        replies.accepted,
    ensures
        first_step(settings, tokens, replies) == (StepModel::ReadClaims {
            token,
            refresh_token: tokens.refresh_token,
        }),
{
}

/// Renewed tokens are handed on as they came where the access token among them is accepted, and
/// are dropped where it is not.
pub proof fn renewed_tokens_are_handed_on(
    settings: Settings,
    renewed: RefreshResponse,
    presented: bool,
)
    ensures
        crate::auth::after_renewed_decode(settings, true, renewed, presented) == (
        StepModel::ReadRenewed { renewed, presented }),
        crate::auth::after_renewed_decode(settings, false, renewed, presented)
            == StepModel::Finish(
            if presented {
                Outcome::Refuse(Refusal::InvalidToken)
            } else if settings.reject_no_auth {
                Outcome::Refuse(Refusal::NoToken)
            } else {
                Outcome::Forward { state: None, renewed: None }
            },
        ),
{
}

/// What a check of claims says settles the request, for the presented token and for the renewed
/// one, whoever the user is.
pub proof fn checks_settle_requests(
    settings: Settings,
    state: AuthState,
    refresh_token: Option<Seq<char>>,
    renewed: RefreshResponse,
    presented: bool,
)
    ensures
        crate::auth::after_check(settings, Some(ClaimsCheck::Accepted(state)), refresh_token)
            == StepModel::Finish(Outcome::Forward { state: Some(state), renewed: None }),
        crate::auth::after_check(settings, Some(ClaimsCheck::NotAuthenticated), refresh_token)
            == StepModel::Finish(Outcome::Refuse(Refusal::Unauthorized)),
        crate::auth::after_check(settings, Some(ClaimsCheck::MalformedSubject), refresh_token)
            is MalformedSubject,
        refresh_token is None ==> crate::auth::after_check(settings, None, refresh_token)
            == StepModel::Finish(Outcome::Refuse(Refusal::InvalidToken)),
        refresh_token is Some ==> crate::auth::after_check(settings, None, refresh_token) == (
        StepModel::Refresh {
            request: RefreshRequestModel {
                url: settings.audience + "/token?grant_type=refresh_token"@,
                apikey: settings.supabase_anon_key,
                refresh_token: refresh_token->0,
            },
            presented: true,
        }),
        crate::auth::after_renewed_check(
            settings,
            Some(ClaimsCheck::Accepted(state)),
            renewed,
            presented,
        ) == StepModel::Finish(Outcome::Forward { state: Some(state), renewed: Some(renewed) }),
        crate::auth::after_renewed_check(
            settings,
            Some(ClaimsCheck::MalformedSubject),
            renewed,
            presented,
        ) is MalformedSubject,
        forall|check: Option<ClaimsCheck>|
            check is None || check->0 is NotAuthenticated
                ==> #[trigger] crate::auth::after_renewed_check(settings, check, renewed, presented)
                == StepModel::Finish(
                if presented {
                    Outcome::Refuse(Refusal::InvalidToken)
                } else if settings.reject_no_auth {
                    Outcome::Refuse(Refusal::NoToken)
                } else {
                    Outcome::Forward { state: None, renewed: None }
                },
            ),
{
}

/// The cookies that hand renewed tokens back: the access token lasts as long as the authentication
/// service says, the refresh token for seven days, and both are sent with every path.
pub proof fn renewed_tokens_go_back_as_cookies(state: Option<AuthState>, tokens: RefreshResponse)
    ensures
        ({
            let cookies = (Outcome::Forward { state, renewed: Some(tokens) }).cookies();
            &&& cookies.len() == 2
            &&& cookies[0] == "apikey="@ + tokens.access_token@ + "; Max-Age="@
                + crate::text::decimal(tokens.expires_in as int) + "; Path=/"@
            &&& cookies[1] == "refresh_token="@ + tokens.refresh_token@
                + "; Max-Age=604800; Path=/"@
        }),
{
    reveal_strlit("apikey");
    reveal_strlit("apikey=");
    reveal_strlit("refresh_token");
    reveal_strlit("refresh_token=");
    reveal_strlit("=");
    reveal_strlit("; Max-Age=");
    reveal_strlit("; Path=/");
    reveal_strlit("; Max-Age=604800; Path=/");
    let cookies = (Outcome::Forward { state, renewed: Some(tokens) }).cookies();
    assert(cookies[0] =~= "apikey="@ + tokens.access_token@ + "; Max-Age="@ + crate::text::decimal(
        tokens.expires_in as int,
    ) + "; Path=/"@);
    assert(crate::text::decimal(604800) =~= seq!['6', '0', '4', '8', '0', '0']) by {
        reveal_with_fuel(crate::text::digits, 7);
    }
    assert(cookies[1] =~= "refresh_token="@ + tokens.refresh_token@ + "; Max-Age=604800; Path=/"@);
}

/// A refused token is taken from the client: both of its cookies are emptied and expire at once.
/// No other refusal sets a cookie, and neither does a request that passes without renewal.
pub proof fn only_invalid_tokens_are_taken_away(refusal: Refusal, state: Option<AuthState>)
    ensures
        Outcome::Refuse(Refusal::InvalidToken).cookies() == seq![
            "apikey=; Max-Age=0; Path=/"@,
            "refresh_token=; Max-Age=0; Path=/"@,
        ],
        refusal != Refusal::InvalidToken ==> Outcome::Refuse(refusal).cookies().len() == 0,
        (Outcome::Forward { state, renewed: None }).cookies().len() == 0,
{
    reveal_strlit("apikey");
    reveal_strlit("refresh_token");
    reveal_strlit("=");
    reveal_strlit("; Max-Age=");
    reveal_strlit("; Path=/");
    reveal_strlit("apikey=; Max-Age=0; Path=/");
    reveal_strlit("refresh_token=; Max-Age=0; Path=/");
    let cookies = Outcome::Refuse(Refusal::InvalidToken).cookies();
    assert(crate::text::decimal(0) =~= seq!['0']);
    assert(cookies[0] =~= "apikey=; Max-Age=0; Path=/"@);
    assert(cookies[1] =~= "refresh_token=; Max-Age=0; Path=/"@);
}

/// Every refusal says in its text what it is for.
pub proof fn refusals_say_what_they_are_for(refusal: Refusal)
    ensures
        refusal.text() == match refusal {
            Refusal::Unauthenticated => "Unauthenticated"@,
            Refusal::Unauthorized => "Unauthorized"@,
            Refusal::InvalidToken => "Invalid JWT token"@,
            Refusal::NoToken => "No authorization token found"@,
        },
{
}

/// Access tokens are checked under HS256 with the project's secret, for the audience of
/// authenticated users, and as issued by the authentication service.
pub proof fn tokens_are_checked_by_the_settings(settings: Settings, token: Seq<char>, now: u64)
    ensures
        settings.passes(token, now) == crate::token::passes(
            token,
            crate::token::Signing::Hs256,
            settings.jwt_secret,
            "authenticated"@,
            settings.audience,
            now,
        ),
        settings.passes(token, now) ==> settings.signed(token),
        settings.signed(token) ==> exists|time: u64| #[trigger] settings.passes(token, time),
{
}

/// A layer's settings, and those of a service in it, are what their fields hold.
pub proof fn settings_are_what_the_fields_hold<S>(
    layer: SupabaseAuthenticationLayer,
    service: SupabaseAuthentication<S>,
)
    ensures
        layer.settings().jwt_secret == layer.jwt_secret@,
        layer.settings().audience == layer.audience@,
        layer.settings().supabase_anon_key == layer.supabase_anon_key@,
        layer.settings().reject_no_auth == layer.reject_no_auth,
        service.settings().jwt_secret == service.jwt_secret@,
        service.settings().audience == service.audience@,
        service.settings().supabase_anon_key == service.supabase_anon_key@,
        service.settings().reject_no_auth == service.reject_no_auth,
{
}

/// What a step is, and what it holds, can be told from its fields.
pub proof fn steps_are_what_their_fields_hold(step: Step)
    ensures
        match step {
            Step::ReadClaims { token, refresh_token } => step@ matches StepModel::ReadClaims {
                token: text,
                refresh_token: refresh,
            } && text == token@ && (refresh is Some <==> refresh_token is Some) && (refresh is Some
                ==> refresh->0 == refresh_token->0@),
            Step::Refresh { request, presented } => step@ matches StepModel::Refresh {
                request: asked,
                presented: had_token,
            } && asked.url == request.url@ && asked.apikey == request.apikey@
                && asked.refresh_token == request.refresh_token@ && had_token == presented,
            Step::ReadRenewed { renewed, presented } => step@ == (StepModel::ReadRenewed {
                renewed,
                presented,
            }),
            Step::Finish(outcome) => step@ == StepModel::Finish(outcome),
            Step::MalformedSubject => step@ is MalformedSubject,
        },
{
}

} // verus!
