//! Who a request comes from. The bearer token is the only thing that selects a tenant, and only
//! a token that does can use up a rate limit.

use vstd::prelude::*;
use crate::error::{ApiError, ApiErrorView};
use crate::rate_limit::{lets_through, next_bucket, RateLimiter};
use crate::text::{
    a_text_is_split_at_its_first_separator, case_is_all_that_differs, eq_ignore_ascii_case,
    is_blank, same_ignoring_ascii_case, split_first, split_once, str_of, text_of, trim, trimmed,
    two_texts_come_apart_at_the_separator,
};

verus! {

/// The token in an `Authorization` header: what follows the first space, without the white space
/// around it, where the scheme before that space is `Bearer` in any case and a token is left.
pub open spec fn token_in(header: Option<Seq<char>>) -> Option<Seq<char>> {
    match header {
        Some(raw) => match split_first(raw, ' ') {
            Some((scheme, rest)) => if same_ignoring_ascii_case(scheme, "bearer"@) && trimmed(
                rest,
            ).len() > 0 {
                Some(trimmed(rest))
            } else {
                None
            },
            None => None,
        },
        None => None,
    }
}

/// The token in an `Authorization` header, where there is one.
pub fn bearer_token(header: Option<&str>) -> (r: Option<String>)
    ensures
        text_of(r) == token_in(str_of(header)),
{
    match header {
        Some(raw) => match split_once(raw, ' ') {
            Some((scheme, rest)) => {
                if !eq_ignore_ascii_case(scheme, "bearer") {
                    return None;
                }
                let token: &str = trim(rest);
                if token.is_empty() {
                    return None;
                }
                Some(token.to_owned())
            },
            None => None,
        },
        None => None,
    }
}

/// The token that a request has to be looked up by; without one it is refused.
pub fn require_token(header: Option<&str>) -> (r: Result<String, ApiError>)
    ensures
        match r {
            Ok(token) => token_in(str_of(header)) == Some(token@),
            Err(e) => token_in(str_of(header)) is None && e@ == ApiErrorView::Unauthorized,
        },
{
    match bearer_token(header) {
        Some(token) => Ok(token),
        None => Err(ApiError::Unauthorized),
    }
}

/// A key that is in force: the tenant it belongs to, and its digest.
#[derive(Debug)]
pub struct KeyRow {
    pub tenant_id: u128,
    pub token_sha256: Vec<u8>,
}

/// The tenant a request acts for, once its token was looked up: the key's, or a refusal where no
/// key was found.
pub fn authenticate(row: Option<KeyRow>) -> (r: Result<(u128, Vec<u8>), ApiError>)
    ensures
        match r {
            Ok((tenant, digest)) => row matches Some(key) && tenant == key.tenant_id && digest
                == key.token_sha256,
            Err(e) => row is None && e@ == ApiErrorView::Unauthorized,
        },
{
    match row {
        Some(key) => Ok((key.tenant_id, key.token_sha256)),
        None => Err(ApiError::Unauthorized),
    }
}

/// The tenant a request acts for, where its key is known and within its rate limit. A request
/// without a known key leaves every bucket as it was; one with a key touches that key's alone.
pub fn authenticate_request(limiter: &mut RateLimiter, row: Option<KeyRow>, now: u64) -> (r: Result<
    u128,
    ApiError,
>)
    ensures
        match row {
            None => {
                &&& r matches Err(e) && e@ == ApiErrorView::Unauthorized
                &&& *final(limiter) == *old(limiter)
            },
            Some(key) => {
                let bucket = old(limiter).bucket(key.token_sha256@);
                &&& final(limiter).rate() == old(limiter).rate()
                &&& final(limiter).bucket(key.token_sha256@) == next_bucket(
                    old(limiter).rate(),
                    bucket,
                    now as int,
                )
                &&& forall|other: Seq<u8>|
                    other != key.token_sha256@ ==> #[trigger] final(limiter).bucket(other) == old(
                        limiter,
                    ).bucket(other)
                &&& if lets_through(old(limiter).rate(), bucket, now as int) {
                    r == Ok::<u128, ApiError>(key.tenant_id)
                } else {
                    r matches Err(e) && e@ == ApiErrorView::TooManyRequests
                }
            },
        },
{
    match authenticate(row) {
        Ok((tenant, digest)) => {
            if limiter.allow(digest.as_slice(), now) {
                Ok(tenant)
            } else {
                Err(ApiError::TooManyRequests)
            }
        },
        Err(e) => Err(e),
    }
}

/// A header names a token exactly where its scheme is `bearer`, in whatever case, and something is
/// left of what follows the first space once the white space around it is gone. That is the token.
pub proof fn bearer_headers_carry_their_token(scheme: Seq<char>, rest: Seq<char>)
    requires
        !scheme.contains(' '),
    ensures
        ({
            let bearer = scheme.len() == 6 && forall|i: int|
                0 <= i < 6 ==> {
                    ||| #[trigger] scheme[i] == "bearer"@[i]
                    ||| 65 <= scheme[i] as int <= 90 && "bearer"@[i] as int == scheme[i] as int + 32
                };
            let token = token_in(Some(scheme + seq![' '] + rest));
            &&& token is Some <==> bearer && !is_blank(rest)
            &&& token is Some ==> token->0 == trimmed(rest)
        }),
{
    two_texts_come_apart_at_the_separator(scheme, ' ', rest);
    let word = "bearer"@;
    reveal_strlit("bearer");
    case_is_all_that_differs(scheme, word);
    assert(word.len() == 6);
    assert(word[0] == 'b' && word[1] == 'e' && word[2] == 'a' && word[3] == 'r' && word[4] == 'e'
        && word[5] == 'r');
    assert forall|i: int| 0 <= i < 6 implies 97 <= #[trigger] word[i] as int by {}
}

/// A header without a space, and no header at all, name no token.
pub proof fn headers_without_a_scheme_carry_nothing(header: Seq<char>)
    requires
        !header.contains(' '),
    ensures
        token_in(Some(header)) is None,
        token_in(None) is None,
{
    a_text_is_split_at_its_first_separator(header, ' ');
}

} // verus!
