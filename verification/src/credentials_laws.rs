//! What holds of the tokens that are read out of a request's headers, whatever the headers.

use vstd::prelude::*;

use crate::credentials::Credentials;

verus! {

/// The token of an `Authorization` header is what stands behind the first `Bearer`, up to the next
/// one or the end, without the white space around it. Here `i` is where the first `Bearer` stands,
/// and `j` is where the next one stands, or the end.
pub proof fn a_bearer_token_follows_the_word(header: Seq<char>, i: int, j: int)
    requires
        crate::text_laws::occurs_at(header, "Bearer"@, i),
        forall|k: int| 0 <= k < i ==> !#[trigger] crate::text_laws::occurs_at(header, "Bearer"@, k),
        i + 6 <= j <= header.len(),
        forall|k: int|
            i + 6 <= k < j ==> !#[trigger] crate::text_laws::occurs_at(header, "Bearer"@, k),
        j < header.len() ==> crate::text_laws::occurs_at(header, "Bearer"@, j),
    ensures
        crate::credentials::bearer_token(header) == Some(
            crate::text::trim(header.subrange(i + 6, j)),
        ),
{
    reveal_strlit("Bearer");
    let pat = "Bearer"@;
    let rest = header.skip(i + 6);
    crate::text_laws::the_first_occurrence_is_found(header, pat, i);
    assert forall|k: int| 0 <= k && k + 6 <= rest.len() implies #[trigger] rest.subrange(k, k + 6)
        == header.subrange(i + 6 + k, i + 6 + k + 6) by {
        assert(rest.subrange(k, k + 6) =~= header.subrange(i + 6 + k, i + 6 + k + 6));
    }
    assert forall|k: int| 0 <= k < j - i - 6 implies !#[trigger] crate::text_laws::occurs_at(
        rest,
        pat,
        k,
    ) by {
        assert(!crate::text_laws::occurs_at(header, pat, i + 6 + k));
    }
    if j < header.len() {
        assert(crate::text_laws::occurs_at(rest, pat, j - i - 6));
        crate::text_laws::the_first_occurrence_is_found(rest, pat, j - i - 6);
        assert(rest.take(j - i - 6) =~= header.subrange(i + 6, j));
    } else {
        assert forall|k: int| !#[trigger] crate::text_laws::occurs_at(rest, pat, k) by {}
        crate::text_laws::the_first_occurrence_is_found(rest, pat, 0);
        assert(rest =~= header.subrange(i + 6, j));
    }
    let parts = crate::text::split(header, pat);
    assert(parts == seq![header.take(i)] + crate::text::split(rest, pat));
    assert(parts[1] == crate::text::split(rest, pat)[0]);
}

/// An `Authorization` header in which `Bearer` does not stand holds no token.
pub proof fn no_bearer_token_without_the_word(header: Seq<char>)
    requires
        forall|k: int| !#[trigger] crate::text_laws::occurs_at(header, "Bearer"@, k),
    ensures
        crate::credentials::bearer_token(header) is None,
{
    crate::text_laws::the_first_occurrence_is_found(header, "Bearer"@, 0);
}

/// Whether the cookie holds `token` under `name`: without the white space around it, it is the
/// name, an equals sign and the token.
pub open spec fn holds(cookie: Seq<char>, name: Seq<char>, token: Seq<char>) -> bool {
    crate::text::trim(cookie) == name + "="@ + token
}

/// Whether the cookie holds some token under `name`.
pub open spec fn is_for(cookie: Seq<char>, name: Seq<char>) -> bool {
    exists|token: Seq<char>| holds(cookie, name, token)
}

proof fn lemma_cookie(cookie: Seq<char>, token: Seq<char>)
    ensures
        holds(cookie, "apikey"@, token) <==> crate::text::strip_prefix(
            crate::text::trim(cookie),
            "apikey="@,
        ) == Some(token),
        holds(cookie, "refresh_token"@, token) <==> crate::text::strip_prefix(
            crate::text::trim(cookie),
            "refresh_token="@,
        ) == Some(token),
        holds(cookie, "refresh_token"@, token) ==> crate::text::strip_prefix(
            crate::text::trim(cookie),
            "apikey="@,
        ) is None,
{
    reveal_strlit("apikey");
    reveal_strlit("apikey=");
    reveal_strlit("refresh_token");
    reveal_strlit("refresh_token=");
    reveal_strlit("=");
    let text = crate::text::trim(cookie);
    assert("apikey"@ + "="@ =~= "apikey="@);
    assert("refresh_token"@ + "="@ =~= "refresh_token="@);
    crate::text_laws::stripping_undoes_prefixing(text, "apikey="@, token);
    crate::text_laws::stripping_undoes_prefixing(text, "refresh_token="@, token);
    if text == "refresh_token="@ + token {
        assert(text[0] == 'r');
        assert(text.take(7)[0] == 'r');
        assert("apikey="@[0] == 'a');
    }
}

proof fn lemma_is_for(cookie: Seq<char>)
    ensures
        is_for(cookie, "apikey"@) <==> crate::text::strip_prefix(
            crate::text::trim(cookie),
            "apikey="@,
        ) is Some,
        is_for(cookie, "refresh_token"@) <==> crate::text::strip_prefix(
            crate::text::trim(cookie),
            "refresh_token="@,
        ) is Some,
{
    let text = crate::text::trim(cookie);
    if let Some(token) = crate::text::strip_prefix(text, "apikey="@) {
        lemma_cookie(cookie, token);
        assert(holds(cookie, "apikey"@, token));
    }
    if let Some(token) = crate::text::strip_prefix(text, "refresh_token="@) {
        lemma_cookie(cookie, token);
        assert(holds(cookie, "refresh_token"@, token));
    }
    if is_for(cookie, "apikey"@) {
        lemma_cookie(cookie, choose|token: Seq<char>| holds(cookie, "apikey"@, token));
    }
    if is_for(cookie, "refresh_token"@) {
        lemma_cookie(cookie, choose|token: Seq<char>| holds(cookie, "refresh_token"@, token));
    }
}

/// The access token is what the last cookie for `apikey` holds and the refresh token what the last
/// cookie for `refresh_token` holds, wherever the two stand and whatever cookies stand beside them.
pub proof fn the_last_cookie_of_a_name_counts(cookies: Seq<Seq<char>>, i: int, token: Seq<char>)
    requires
        0 <= i < cookies.len(),
    ensures
        holds(cookies[i], "apikey"@, token) && (forall|k: int|
            i < k < cookies.len() ==> !is_for(#[trigger] cookies[k], "apikey"@))
            ==> crate::credentials::cookie_tokens(cookies).access_token == Some(token),
        holds(cookies[i], "refresh_token"@, token) && (forall|k: int|
            i < k < cookies.len() ==> !is_for(#[trigger] cookies[k], "refresh_token"@))
            ==> crate::credentials::cookie_tokens(cookies).refresh_token == Some(token),
    decreases cookies.len(),
{
    let init = cookies.drop_last();
    let last = cookies.last();
    lemma_is_for(last);
    if i < init.len() {
        the_last_cookie_of_a_name_counts(init, i, token);
        assert(cookies[cookies.len() - 1] == last);
        assert(init[i] == cookies[i]);
        assert(forall|k: int| 0 <= k < init.len() ==> #[trigger] init[k] == cookies[k]);
    } else {
        lemma_cookie(last, token);
    }
}

/// A token is missing only where no cookie is for it.
pub proof fn tokens_without_a_cookie_are_missing(cookies: Seq<Seq<char>>)
    ensures
        crate::credentials::cookie_tokens(cookies).access_token is None <==> forall|k: int|
            0 <= k < cookies.len() ==> !is_for(#[trigger] cookies[k], "apikey"@),
        crate::credentials::cookie_tokens(cookies).refresh_token is None <==> forall|k: int|
            0 <= k < cookies.len() ==> !is_for(#[trigger] cookies[k], "refresh_token"@),
    decreases cookies.len(),
{
    if cookies.len() > 0 {
        let init = cookies.drop_last();
        let last = cookies.last();
        tokens_without_a_cookie_are_missing(init);
        lemma_is_for(last);
        if is_for(last, "refresh_token"@) {
            lemma_cookie(last, choose|token: Seq<char>| holds(last, "refresh_token"@, token));
        }
        assert(cookies[cookies.len() - 1] == last);
        assert(forall|k: int|
            #![trigger init[k]]
            #![trigger cookies[k]]
            0 <= k < init.len() ==> init[k] == cookies[k]);
    }
}

/// The order of cookies for different names does not matter.
pub proof fn cookies_of_different_names_may_change_places(
    cookies: Seq<Seq<char>>,
    first: Seq<char>,
    second: Seq<char>,
)
    requires
        is_for(first, "apikey"@) ==> !is_for(second, "apikey"@),
        is_for(first, "refresh_token"@) ==> !is_for(second, "refresh_token"@),
    ensures
        crate::credentials::cookie_tokens(cookies.push(first).push(second))
            == crate::credentials::cookie_tokens(cookies.push(second).push(first)),
{
    lemma_is_for(first);
    lemma_is_for(second);
    if is_for(first, "refresh_token"@) {
        lemma_cookie(first, choose|token: Seq<char>| holds(first, "refresh_token"@, token));
    }
    if is_for(second, "refresh_token"@) {
        lemma_cookie(second, choose|token: Seq<char>| holds(second, "refresh_token"@, token));
    }
    assert(cookies.push(first).push(second).drop_last() =~= cookies.push(first));
    assert(cookies.push(first).drop_last() =~= cookies);
    assert(cookies.push(second).push(first).drop_last() =~= cookies.push(second));
    assert(cookies.push(second).drop_last() =~= cookies);
    reveal_with_fuel(crate::credentials::cookie_tokens, 3);
}

/// A token in the `Authorization` header is the access token, and there is no refresh token with
/// it. Without one the tokens are those of the cookies, which semicolons part. Without either
/// header there are none.
pub proof fn headers_are_read_in_turn(
    authorization: Option<Seq<char>>,
    cookie: Option<Seq<char>>,
    header: Seq<char>,
)
    ensures
        authorization == Some(header) && crate::credentials::bearer_token(header) is Some ==> {
            let tokens = crate::credentials::credentials(authorization, cookie);
            &&& tokens.access_token == crate::credentials::bearer_token(header)
            &&& tokens.refresh_token is None
        },
        (authorization is None || crate::credentials::bearer_token(authorization->0) is None) ==> {
            let tokens = crate::credentials::credentials(authorization, cookie);
            &&& cookie == Some(header) ==> tokens == crate::credentials::cookie_tokens(
                crate::text::split(header, ";"@),
            )
            &&& cookie is None ==> tokens.access_token is None && tokens.refresh_token is None
        },
{
}

/// The tokens of a request without a token in its `Authorization` header come from its `Cookie`
/// header, cut at the semicolons: the access token from the last part for `apikey`, the refresh
/// token from the last part for `refresh_token`, and either is missing only where no part is for
/// it.
pub proof fn cookies_present_both_tokens(
    authorization: Option<Seq<char>>,
    header: Seq<char>,
    i: int,
    token: Seq<char>,
)
    requires
        authorization is None || crate::credentials::bearer_token(authorization->0) is None,
    ensures
        ({
            let parts = crate::text::split(header, ";"@);
            let tokens = crate::credentials::credentials(authorization, Some(header));
            &&& 0 <= i < parts.len() && holds(parts[i], "apikey"@, token) && (forall|k: int|
                i < k < parts.len() ==> !is_for(#[trigger] parts[k], "apikey"@))
                ==> tokens.access_token == Some(token)
            &&& 0 <= i < parts.len() && holds(parts[i], "refresh_token"@, token) && (forall|k: int|
                i < k < parts.len() ==> !is_for(#[trigger] parts[k], "refresh_token"@))
                ==> tokens.refresh_token == Some(token)
            &&& tokens.access_token is None <==> forall|k: int|
                0 <= k < parts.len() ==> !is_for(#[trigger] parts[k], "apikey"@)
            &&& tokens.refresh_token is None <==> forall|k: int|
                0 <= k < parts.len() ==> !is_for(#[trigger] parts[k], "refresh_token"@)
        }),
{
    let parts = crate::text::split(header, ";"@);
    tokens_without_a_cookie_are_missing(parts);
    if 0 <= i < parts.len() {
        the_last_cookie_of_a_name_counts(parts, i, token);
    }
}

/// The tokens that were read, and the headers that they were read from, are the texts of their
/// strings.
pub proof fn tokens_are_the_texts_of_their_strings(
    tokens: Credentials,
    access_token: String,
    refresh_token: String,
    header: &str,
)
    ensures
        tokens.access_token == Some(access_token) ==> tokens@.access_token == Some(access_token@),
        tokens.access_token is None ==> tokens@.access_token is None,
        tokens.refresh_token == Some(refresh_token) ==> tokens@.refresh_token == Some(
            refresh_token@,
        ),
        tokens.refresh_token is None ==> tokens@.refresh_token is None,
        crate::credentials::opt_header(Some(header)) == Some(header@),
        crate::credentials::opt_header(None) is None,
{
}

} // verus!
