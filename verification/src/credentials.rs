//! The tokens that a request presents in its headers.

use vstd::prelude::*;
use vstd::string::*;

use crate::text::{split_str, strip_prefix_str, trim_str};

verus! {

/// The tokens that a request presents.
#[derive(Debug)]
pub struct Credentials {
    pub access_token: Option<String>,
    pub refresh_token: Option<String>,
}

/// The contents of a `Credentials`.
pub struct CredentialsModel {
    pub access_token: Option<Seq<char>>,
    pub refresh_token: Option<Seq<char>>,
}

impl View for Credentials {
    type V = CredentialsModel;

    open spec fn view(&self) -> CredentialsModel {
        CredentialsModel {
            access_token: crate::text::opt_text(self.access_token),
            refresh_token: crate::text::opt_text(self.refresh_token),
        }
    }
}

/// The access token of an `Authorization` header: what stands between the first `Bearer` and the
/// next one, or the end.
pub open spec fn bearer_token(header: Seq<char>) -> Option<Seq<char>> {
    let parts = crate::text::split(header, "Bearer"@);
    if parts.len() >= 2 {
        Some(crate::text::trim(parts[1]))
    } else {
        None
    }
}

/// The tokens that the given cookies hold; of two cookies for one token the later counts.
pub open spec fn cookie_tokens(cookies: Seq<Seq<char>>) -> CredentialsModel
    decreases cookies.len(),
{
    if cookies.len() == 0 {
        CredentialsModel { access_token: None, refresh_token: None }
    } else {
        let earlier = cookie_tokens(cookies.drop_last());
        let cookie = crate::text::trim(cookies.last());
        match crate::text::strip_prefix(cookie, "apikey="@) {
            Some(token) => CredentialsModel { access_token: Some(token), ..earlier },
            None => match crate::text::strip_prefix(cookie, "refresh_token="@) {
                Some(token) => CredentialsModel { refresh_token: Some(token), ..earlier },
                None => earlier,
            },
        }
    }
}

/// The tokens of a request with the given `Authorization` and `Cookie` headers. Cookies count only
/// where the `Authorization` header holds no token.
pub open spec fn credentials(
    authorization: Option<Seq<char>>,
    cookie: Option<Seq<char>>,
) -> CredentialsModel {
    let bearer = match authorization {
        Some(header) => bearer_token(header),
        None => None,
    };
    match bearer {
        Some(token) => CredentialsModel { access_token: Some(token), refresh_token: None },
        None => match cookie {
            Some(header) => cookie_tokens(crate::text::split(header, ";"@)),
            None => CredentialsModel { access_token: None, refresh_token: None },
        },
    }
}

/// The view of an optional header value.
pub open spec fn opt_header(header: Option<&str>) -> Option<Seq<char>> {
    match header {
        Some(header) => Some(header@),
        None => None,
    }
}

/// Reads the access token out of an `Authorization` header.
pub fn read_bearer(header: &str) -> (token: Option<String>)
    ensures
        crate::text::opt_text(token) == bearer_token(header@),
{
    proof {
        reveal_strlit("Bearer");
    }
    let parts = split_str(header, "Bearer");
    assert(crate::text::texts(parts@).len() == parts@.len());
    if parts.len() >= 2 {
        assert(crate::text::texts(parts@)[1] == parts@[1]@);
        Some(trim_str(parts[1].as_str()))
    } else {
        None
    }
}

/// Reads the tokens out of a `Cookie` header.
pub fn read_cookies(header: &str) -> (tokens: Credentials)
    ensures
        tokens@ == cookie_tokens(crate::text::split(header@, ";"@)),
{
    proof {
        reveal_strlit(";");
    }
    let cookies = split_str(header, ";");
    let ghost all = crate::text::texts(cookies@);
    let mut access_token: Option<String> = None;
    let mut refresh_token: Option<String> = None;
    let mut i: usize = 0;
    assert(all.take(0).len() == 0);
    while i < cookies.len()
        invariant
            i <= cookies.len(),
            all == crate::text::texts(cookies@),
            cookie_tokens(all.take(i as int)) == (CredentialsModel {
                access_token: crate::text::opt_text(access_token),
                refresh_token: crate::text::opt_text(refresh_token),
            }),
        decreases cookies.len() - i,
    {
        let cookie = trim_str(cookies[i].as_str());
        proof {
            assert(all.take(i + 1).drop_last() =~= all.take(i as int));
            assert(all.take(i + 1).last() == cookies@[i as int]@);
        }
        match strip_prefix_str(cookie.as_str(), "apikey=") {
            Some(token) => {
                access_token = Some(token);
            },
            None => {
                match strip_prefix_str(cookie.as_str(), "refresh_token=") {
                    Some(token) => {
                        refresh_token = Some(token);
                    },
                    None => {},
                }
            },
        }
        i = i + 1;
    }
    assert(all.take(cookies@.len() as int) =~= all);
    Credentials { access_token, refresh_token }
}

/// Reads the tokens of a request out of its `Authorization` and `Cookie` headers.
pub fn read_credentials(authorization: Option<&str>, cookie: Option<&str>) -> (tokens: Credentials)
    ensures
        tokens@ == credentials(opt_header(authorization), opt_header(cookie)),
{
    let bearer = match authorization {
        Some(header) => read_bearer(header),
        None => None,
    };
    match bearer {
        Some(token) => Credentials { access_token: Some(token), refresh_token: None },
        None => match cookie {
            Some(header) => read_cookies(header),
            None => Credentials { access_token: None, refresh_token: None },
        },
    }
}

} // verus!
