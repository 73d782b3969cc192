//! Websockets opened by browsers must come from the page's own host.
use vstd::prelude::*;
use crate::docs::first_piece;
use crate::error::{AppError, STATUS_UNAUTHORIZED, plain_error};
use crate::list_paging::{opt_view, opt_str_view};
use crate::text::{trim, trim_str, ascii_lower, to_ascii_lowercase, str_eq, chars_of, string_of, owned};

verus! {

/// The host part of an origin URL as `url::Url::parse` reads it (empty when the URL has no
/// host), or `None` when the text does not parse as a URL.
pub uninterp spec fn url_host(origin: Seq<char>) -> Option<Seq<char>>;

/// Parses the origin with `url::Url::parse` and takes its `host_str` (empty when there is
/// none). What parses and which host comes out is not spelled out here: the result is named
/// `url_host` of the text.
#[verifier::external_body]
fn parse_origin_host(origin: &str) -> (r: Option<String>)
    ensures
        opt_view(r) == url_host(origin@),
{
    match url::Url::parse(origin) {
        Ok(u) => Some(u.host_str().unwrap_or("").to_string()),
        Err(_) => None,
    }
}

/// The host the request was made to: behind a trusted proxy the first forwarded host
/// (trimmed), else the Host header.
pub open spec fn expected_host_spec(trusted_proxy: bool, forwarded_host: Option<Seq<char>>, host: Option<Seq<char>>) -> Option<Seq<char>> {
    if trusted_proxy && forwarded_host is Some {
        Some(trim(first_piece(forwarded_host->0, ',')))
    } else {
        host
    }
}

/// A host without its port, trimmed and in ASCII lowercase.
pub open spec fn bare_host(h: Seq<char>) -> Seq<char> {
    ascii_lower(trim(first_piece(h, ':')))
}

/// Allowed when the origin parses and its host, in ASCII lowercase, is the expected host.
pub open spec fn origin_allowed(origin_host: Option<Seq<char>>, expected: Seq<char>) -> bool {
    origin_host matches Some(h) && ascii_lower(h) == bare_host(expected)
}

fn piece_before(s: &str, c: char) -> (r: String)
    ensures
        r@ == first_piece(s@, c),
{
    let v = chars_of(s);
    let mut i: usize = 0;
    assert(v@.skip(0) =~= v@);
    while i < v.len() && v[i] != c
        invariant
            v@ == s@,
            i <= v.len(),
            v@.subrange(0, i as int) + first_piece(v@.skip(i as int), c) == first_piece(s@, c),
        decreases v.len() - i,
    {
        let ghost rest = v@.skip(i as int);
        assert(rest[0] == v@[i as int]);
        assert(rest.drop_first() =~= v@.skip(i + 1));
        assert(v@.subrange(0, i + 1) + first_piece(v@.skip(i + 1), c) =~= v@.subrange(0, i as int) + first_piece(rest, c));
        i = i + 1;
    }
    proof {
        if i < v.len() {
            assert(v@.skip(i as int)[0] == c);
        } else {
            assert(v@.skip(i as int) =~= Seq::<char>::empty());
        }
        assert(v@.subrange(0, i as int) + Seq::<char>::empty() =~= v@.subrange(0, i as int));
    }
    string_of(&v, 0, i)
}

/// Whether the origin host (as parsed) matches the expected host.
pub fn origin_host_matches(origin_host: Option<&str>, expected: &str) -> (r: bool)
    ensures
        r == origin_allowed(opt_str_view(origin_host), expected@),
{
    match origin_host {
        None => false,
        Some(h) => {
            let want = to_ascii_lowercase(trim_str(piece_before(expected, ':').as_str()));
            let got = to_ascii_lowercase(h);
            str_eq(got.as_str(), want.as_str())
        },
    }
}

pub fn expected_host(trusted_proxy: bool, forwarded_host: Option<&str>, host: Option<&str>) -> (r: Option<String>)
    ensures
        opt_view(r) == expected_host_spec(trusted_proxy, opt_str_view(forwarded_host), opt_str_view(host)),
{
    if trusted_proxy {
        if let Some(f) = forwarded_host {
            let first = piece_before(f, ',');
            return Some(owned(trim_str(first.as_str())));
        }
    }
    match host {
        Some(h) => Some(owned(h)),
        None => None,
    }
}

/// Refuses a websocket whose Origin is missing, unparsable, or of another host than the
/// request's (the forwarded host behind a trusted proxy).
pub fn require_ws_same_origin(
    origin: Option<&str>,
    trusted_proxy: bool,
    forwarded_host: Option<&str>,
    host: Option<&str>,
) -> (r: Result<(), AppError>)
    ensures
        ({
            let allowed = match (origin, expected_host_spec(trusted_proxy, opt_str_view(forwarded_host), opt_str_view(host))) {
                (Some(o), Some(e)) => origin_allowed(url_host(o@), e),
                _ => false,
            };
            &&& allowed ==> r is Ok
            &&& !allowed ==> r is Err && plain_error(r->Err_0, STATUS_UNAUTHORIZED, "invalid_origin"@, "Invalid origin"@)
        }),
{
    let o = match origin {
        Some(o) => o,
        None => return Err(AppError::unauthorized("invalid_origin", "Invalid origin")),
    };
    let expected = match expected_host(trusted_proxy, forwarded_host, host) {
        Some(e) => e,
        None => return Err(AppError::unauthorized("invalid_origin", "Invalid origin")),
    };
    let parsed = parse_origin_host(o);
    let parsed_ref: Option<&str> = match &parsed {
        Some(h) => Some(h.as_str()),
        None => None,
    };
    if !origin_host_matches(parsed_ref, expected.as_str()) {
        return Err(AppError::unauthorized("invalid_origin", "Invalid origin"));
    }
    Ok(())
}

} // verus!
