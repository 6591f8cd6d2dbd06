//! Control-plane request rules.
//!
//! The helper forwards frontend requests to the configured API server. The
//! decision rules that guard the forwarding live here: a request may only
//! target the configured server (so the bearer token cannot leak to an
//! arbitrary host), caller headers may never override the authorization
//! header, and only successful responses are streamed.

use vstd::prelude::*;

use crate::link::str_starts_with;

verus! {

/// ASCII lowercase of one character.
pub open spec fn lower_char(c: char) -> char {
    if 65 <= c as u32 <= 90 {
        (((c as u32) + 32) as u8) as char
    } else {
        c
    }
}

/// ASCII lowercase of a header name.
pub open spec fn lower_chars(s: Seq<char>) -> Seq<char> {
    s.map_values(|c: char| lower_char(c))
}

/// A header name the caller may set: anything but the authorization header,
/// compared ASCII-case-insensitively.
pub open spec fn header_allowed(name: Seq<char>) -> bool {
    lower_chars(name) != "authorization"@
}

/// May the request URL be forwarded? Only URLs on the configured API server
/// are, preventing request forgery and token leakage to other hosts.
pub fn url_allowed(url: &String, api_url: &String) -> (r: bool)
    ensures
        r == api_url@.is_prefix_of(url@),
{
    str_starts_with(url.as_str(), api_url.as_str())
}

/// True when the status code lies in the HTTP success range.
pub fn is_success_status(status: u16) -> (r: bool)
    ensures
        r == (200 <= status < 300),
{
    200 <= status && status < 300
}

/// Stream the response only when the caller asked for it and the response
/// is a success: error responses are returned inline so the frontend can
/// inspect the body synchronously.
pub fn should_stream(requested: &Option<bool>, status: u16) -> (r: bool)
    ensures
        r == (*requested == Some(true) && 200 <= status < 300),
{
    match requested {
        Some(b) => *b && 200 <= status && status < 300,
        None => false,
    }
}

fn is_authorization(name: &String) -> (r: bool)
    ensures
        r == (lower_chars(name@) == "authorization"@),
{
    proof {
        reveal_strlit("authorization");
    }
    let key = "authorization";
    let n = name.as_str().unicode_len();
    if n != 13 {
        proof {
            assert(lower_chars(name@).len() == name@.len());
        }
        return false;
    }
    let mut j: usize = 0;
    while j < 13
        invariant
            0 <= j <= 13,
            name@.len() == 13,
            key@ == "authorization"@,
            key@.len() == 13,
            forall|t: int| 0 <= t < j ==> lower_chars(name@)[t] == key@[t],
        decreases 13 - j,
    {
        proof {
            reveal_strlit("authorization");
        }
        let c = name.as_str().get_char(j);
        let cu = c as u32;
        let lc: char = if 65 <= cu && cu <= 90 {
            ((cu + 32) as u8) as char
        } else {
            c
        };
        proof {
            assert(lc == lower_char(name@[j as int]));
            assert(lower_chars(name@)[j as int] == lower_char(name@[j as int]));
        }
        if lc != key.get_char(j) {
            proof {
                assert(lower_chars(name@)[j as int] != key@[j as int]);
            }
            return false;
        }
        j = j + 1;
    }
    proof {
        assert(lower_chars(name@) =~= "authorization"@);
    }
    true
}

/// The caller's header sequence with the authorization header dropped.
pub open spec fn allowed_headers(s: Seq<(Seq<char>, Seq<char>)>) -> Seq<(Seq<char>, Seq<char>)> {
    s.filter(|p: (Seq<char>, Seq<char>)| header_allowed(p.0))
}

/// Caller-specified headers with the authorization header dropped, in any
/// ASCII case: that header is always set by the helper itself.
pub fn sanitize_headers(headers: &Vec<(String, String)>) -> (r: Vec<(String, String)>)
    ensures
        r.deep_view() == allowed_headers(headers.deep_view()),
{
    let n = headers.len();
    let mut kept: Vec<(String, String)> = Vec::new();
    proof {
        reveal(Seq::filter);
        assert(headers.deep_view().take(0) =~= Seq::<(Seq<char>, Seq<char>)>::empty());
        assert(kept.deep_view() =~= allowed_headers(headers.deep_view().take(0)));
    }
    let mut i: usize = 0;
    while i < n
        invariant
            0 <= i <= n,
            n == headers@.len(),
            kept.deep_view() == allowed_headers(headers.deep_view().take(i as int)),
        decreases n - i,
    {
        let ghost seen = headers.deep_view().take(i as int);
        let ghost next = headers.deep_view().take(i + 1);
        let ghost entry = headers.deep_view()[i as int];
        proof {
            reveal(Seq::filter);
            assert(next.drop_last() =~= seen);
            assert(next.last() == entry);
            assert(entry.0 == headers@[i as int].0@);
        }
        if !is_authorization(&headers[i].0) {
            let pair = (headers[i].0.clone(), headers[i].1.clone());
            let ghost kept_before = kept.deep_view();
            kept.push(pair);
            proof {
                reveal(Seq::filter);
                assert(header_allowed(entry.0));
                assert(allowed_headers(next) == allowed_headers(seen).push(entry));
                assert(kept.deep_view() =~= kept_before.push(entry));
                assert(kept.deep_view() =~= allowed_headers(next));
            }
        } else {
            proof {
                reveal(Seq::filter);
                assert(!header_allowed(entry.0));
                assert(allowed_headers(next) == allowed_headers(seen));
                assert(kept.deep_view() =~= allowed_headers(next));
            }
        }
        i = i + 1;
    }
    proof {
        assert(headers.deep_view().take(n as int) =~= headers.deep_view());
    }
    kept
}

/// The authorization header value the helper sets on every forwarded
/// request.
pub fn bearer_value(token: &String) -> (r: String)
    ensures
        r@ == "Bearer "@ + token@,
{
    let mut r = String::from_str("Bearer ");
    r.append(token.as_str());
    r
}

} // verus!
