use vstd::prelude::*;

use crate::error::{fails_with, ApiError, ErrorKind};

verus! {

/// The scheme word that opens a well-formed authorization header.
pub open spec fn token_scheme() -> Seq<char> {
    seq!['t', 'o', 'k', 'e', 'n', ' ']
}

/// Outcome of checking an optional authorization header against the
/// configured secret: `None` to admit, else the kind of the failure.
pub open spec fn gate_decision(header: Option<Seq<char>>, secret: Seq<char>) -> Option<ErrorKind> {
    match header {
        None => Some(ErrorKind::BadRequest),
        Some(h) => if h.len() >= 6 && h.subrange(0, 6) == token_scheme() {
            if h.subrange(6, h.len() as int) == secret {
                None
            } else {
                Some(ErrorKind::Unauthorized)
            }
        } else {
            Some(ErrorKind::BadRequest)
        },
    }
}

/// The characters of an optional header.
pub open spec fn header_view(header: Option<&str>) -> Option<Seq<char>> {
    match header {
        None => None,
        Some(h) => Some(h@),
    }
}

/// Admits a request whose authorization header reads `token <secret>` with
/// exactly the configured secret. A missing or malformed header is a
/// `BadRequest`; another secret is `Unauthorized`.
pub fn validate_api_token(authorization: Option<&str>, api_token: &str) -> (r: Result<
    (),
    ApiError,
>)
    ensures
        gate_decision(header_view(authorization), api_token@) == None::<ErrorKind> ==> r is Ok,
        gate_decision(header_view(authorization), api_token@) matches Some(k) ==> fails_with(r, k),
{
    match authorization {
        None => Err(ApiError::new(ErrorKind::BadRequest, "missing authorization header")),
        Some(header) => check_header(header, api_token),
    }
}

fn check_header(header: &str, api_token: &str) -> (r: Result<(), ApiError>)
    ensures
        gate_decision(Some(header@), api_token@) == None::<ErrorKind> ==> r is Ok,
        gate_decision(Some(header@), api_token@) matches Some(k) ==> fails_with(r, k),
{
    let scheme: &str = "token ";
    proof {
        reveal_strlit("token ");
    }
    assert(scheme@ =~= token_scheme());
    let n = header.unicode_len();
    if n < 6 {
        return Err(ApiError::new(ErrorKind::BadRequest, "invalid authorization header"));
    }
    let mut k: usize = 0;
    while k < 6
        invariant
            k <= 6,
            n == header@.len(),
            n >= 6,
            scheme@ == token_scheme(),
            forall|j: int| 0 <= j < k ==> header@[j] == token_scheme()[j],
        decreases 6 - k,
    {
        if header.get_char(k) != scheme.get_char(k) {
            assert(header@.subrange(0, 6)[k as int] != token_scheme()[k as int]);
            assert(header@.subrange(0, 6) != token_scheme());
            return Err(ApiError::new(ErrorKind::BadRequest, "invalid authorization header"));
        }
        k = k + 1;
    }
    assert(header@.subrange(0, 6) =~= token_scheme());
    let given = header.substring_char(6, n).to_owned();
    let expected = api_token.to_owned();
    if given == expected {
        Ok(())
    } else {
        Err(ApiError::new(ErrorKind::Unauthorized, "invalid authorization token"))
    }
}

} // verus!
