//! Link parsing.
//!
//! A deep link carries its session identifier in the query string, as the
//! value of the `session` key: `scheme:...?...&session=<id>&...`. The parser
//! is deliberately minimal: no URL-decoding, `&`-separated pairs, and only
//! the first `session` pair decides.

use vstd::prelude::*;

verus! {

/// Index of the first occurrence of `c` in `s`, if any.
pub open spec fn find_char(s: Seq<char>, c: char) -> Option<int>
    decreases s.len(),
{
    if s.len() == 0 {
        None
    } else if s[0] == c {
        Some(0int)
    } else {
        match find_char(s.skip(1), c) {
            Some(i) => Some(i + 1),
            None => None,
        }
    }
}

pub proof fn lemma_find_char_bounds(s: Seq<char>, c: char)
    ensures
        match find_char(s, c) {
            Some(i) => 0 <= i < s.len() && s[i] == c && (forall|j: int| 0 <= j < i ==> s[j] != c),
            None => forall|j: int| 0 <= j < s.len() ==> s[j] != c,
        },
    decreases s.len(),
{
    if s.len() > 0 && s[0] != c {
        let tail = s.skip(1);
        lemma_find_char_bounds(tail, c);
        assert(forall|j: int| 0 <= j < tail.len() ==> tail[j] == s[j + 1]);
        match find_char(tail, c) {
            Some(i) => {
                assert(find_char(s, c) == Some(i + 1));
                assert(s[i + 1] == c);
                assert forall|j: int| 0 <= j < i + 1 implies s[j] != c by {
                    if j > 0 {
                        assert(tail[j - 1] != c);
                    }
                }
            },
            None => {
                assert(find_char(s, c) is None);
                assert forall|j: int| 0 <= j < s.len() implies s[j] != c by {
                    if j > 0 {
                        assert(tail[j - 1] != c);
                    }
                }
            },
        }
    }
}

/// The first occurrence is characterized by its index facts.
pub proof fn lemma_find_char_at(s: Seq<char>, c: char, i: int)
    requires
        0 <= i < s.len(),
        s[i] == c,
        forall|j: int| 0 <= j < i ==> s[j] != c,
    ensures
        find_char(s, c) == Some(i),
{
    lemma_find_char_bounds(s, c);
    match find_char(s, c) {
        Some(k) => {
            if k < i {
                assert(s[k] == c);
            } else if i < k {
                assert(s[i] != c);
            }
        },
        None => {
            assert(s[i] != c);
        },
    }
}

pub proof fn lemma_find_char_none(s: Seq<char>, c: char)
    requires
        forall|j: int| 0 <= j < s.len() ==> s[j] != c,
    ensures
        find_char(s, c) is None,
{
    lemma_find_char_bounds(s, c);
    match find_char(s, c) {
        Some(k) => {
            assert(s[k] != c);
        },
        None => {},
    }
}

/// Scan the `&`-separated pairs of a query string for the first `session`
/// key; its value decides, and an empty value means no session identifier.
pub open spec fn scan_query(q: Seq<char>) -> Option<Seq<char>>
    decreases q.len(),
    via scan_query_decreases
{
    let pair_end = match find_char(q, '&') {
        Some(i) => i,
        None => q.len() as int,
    };
    let pair = q.take(pair_end);
    if "session="@.is_prefix_of(pair) {
        let value = pair.skip(8);
        if value.len() > 0 {
            Some(value)
        } else {
            None
        }
    } else if find_char(q, '&') is Some {
        scan_query(q.skip(pair_end + 1))
    } else {
        None
    }
}

#[via_fn]
proof fn scan_query_decreases(q: Seq<char>) {
    lemma_find_char_bounds(q, '&');
}

/// The session identifier of a deep link URL: the value of the first
/// `session` pair in the query string, if the URL has a query string, such a
/// pair, and a non-empty value.
pub open spec fn spec_extract_session_id(url: Seq<char>) -> Option<Seq<char>> {
    match find_char(url, '?') {
        Some(q) => scan_query(url.skip(q + 1)),
        None => None,
    }
}

/// First position at or after `from` where `c` occurs in `s`.
fn find_char_from(s: &str, from: usize, c: char) -> (r: Option<usize>)
    requires
        from <= s@.len(),
    ensures
        match r {
            Some(i) => from <= i < s@.len() && s@[i as int] == c && (forall|j: int|
                from <= j < i ==> s@[j] != c),
            None => forall|j: int| from <= j < s@.len() ==> s@[j] != c,
        },
{
    let len = s.unicode_len();
    let mut i = from;
    while i < len
        invariant
            from <= i <= len,
            len == s@.len(),
            forall|j: int| from <= j < i ==> s@[j] != c,
        decreases len - i,
    {
        if s.get_char(i) == c {
            return Some(i);
        }
        i = i + 1;
    }
    None
}

/// Do the characters of `s` in `[start, pair_end)` begin with `session=`?
fn has_session_prefix(s: &str, start: usize, pair_end: usize) -> (r: bool)
    requires
        start <= pair_end <= s@.len(),
    ensures
        r == "session="@.is_prefix_of(s@.subrange(start as int, pair_end as int)),
{
    proof {
        reveal_strlit("session=");
    }
    let ghost pair = s@.subrange(start as int, pair_end as int);
    if pair_end - start < 8 {
        return false;
    }
    let key = "session=";
    let mut j: usize = 0;
    while j < 8
        invariant
            0 <= j <= 8,
            start + 8 <= pair_end <= s@.len(),
            key@ == "session="@,
            key@.len() == 8,
            pair == s@.subrange(start as int, pair_end as int),
            forall|t: int| 0 <= t < j ==> pair[t] == key@[t],
        decreases 8 - j,
    {
        if s.get_char(start + j) != key.get_char(j) {
            proof {
                assert(pair[j as int] != key@[j as int]);
                assert(!key@.is_prefix_of(pair));
            }
            return false;
        }
        j = j + 1;
    }
    proof {
        assert(key@ =~= pair.subrange(0, 8));
    }
    true
}

/// Extract the `session` query parameter from a deep link URL.
///
/// No URL-decoding is performed; a missing query string, a missing `session`
/// key and an empty value all yield `None`.
pub fn extract_session_id(url: &str) -> (r: Option<String>)
    ensures
        r.deep_view() == spec_extract_session_id(url@),
{
    let len = url.unicode_len();
    let qpos = match find_char_from(url, 0, '?') {
        Some(i) => i,
        None => {
            proof {
                lemma_find_char_none(url@, '?');
            }
            return None;
        },
    };
    proof {
        lemma_find_char_at(url@, '?', qpos as int);
        reveal_strlit("session=");
        assert("session="@.len() == 8);
    }
    let ghost q = url@.skip(qpos as int + 1);
    let mut start: usize = qpos + 1;
    loop
        invariant
            qpos < start <= len,
            len == url@.len(),
            q == url@.skip(qpos as int + 1),
            find_char(url@, '?') == Some(qpos as int),
            scan_query(q) == scan_query(url@.skip(start as int)),
        decreases len - start,
    {
        proof {
            reveal_strlit("session=");
        }
        let ghost qq = url@.skip(start as int);
        let pair_end = match find_char_from(url, start, '&') {
            Some(i) => i,
            None => len,
        };
        proof {
            assert(forall|t: int| 0 <= t < qq.len() ==> qq[t] == url@[start + t]);
            if pair_end < len {
                lemma_find_char_at(qq, '&', pair_end - start);
            } else {
                lemma_find_char_none(qq, '&');
            }
            assert(qq.take(pair_end - start) =~= url@.subrange(start as int, pair_end as int));
        }
        if has_session_prefix(url, start, pair_end) {
            proof {
                assert("session="@.is_prefix_of(url@.subrange(start as int, pair_end as int)));
                assert(url@.subrange(start as int, pair_end as int).len() == pair_end - start);
                assert(pair_end - start >= 8);
            }
            if pair_end - start == 8 {
                proof {
                    assert(qq.take(pair_end - start).skip(8).len() == 0);
                    assert(scan_query(qq) is None);
                }
                return None;
            }
            let value = url.substring_char(start + 8, pair_end);
            let out = value.to_owned();
            proof {
                assert(value@ =~= qq.take(pair_end - start).skip(8));
                assert(scan_query(qq) == Some(value@));
            }
            return Some(out);
        } else {
            if pair_end == len {
                proof {
                    assert(scan_query(qq) is None);
                }
                return None;
            }
            proof {
                assert(qq.skip(pair_end - start + 1) =~= url@.skip(pair_end + 1));
            }
            start = pair_end + 1;
        }
    }
}

/// First element of `args` that begins with `prefix`, if any.
pub open spec fn spec_find_prefixed(args: Seq<Seq<char>>, prefix: Seq<char>) -> Option<Seq<char>>
    decreases args.len(),
{
    if args.len() == 0 {
        None
    } else if prefix.is_prefix_of(args[0]) {
        Some(args[0])
    } else {
        spec_find_prefixed(args.skip(1), prefix)
    }
}

/// Does `s` begin with `prefix`?
pub fn str_starts_with(s: &str, prefix: &str) -> (r: bool)
    ensures
        r == prefix@.is_prefix_of(s@),
{
    let plen = prefix.unicode_len();
    let slen = s.unicode_len();
    if plen > slen {
        return false;
    }
    let mut j: usize = 0;
    while j < plen
        invariant
            0 <= j <= plen,
            plen == prefix@.len(),
            plen <= slen == s@.len(),
            forall|t: int| 0 <= t < j ==> s@[t] == prefix@[t],
        decreases plen - j,
    {
        if s.get_char(j) != prefix.get_char(j) {
            proof {
                assert(s@.subrange(0, plen as int)[j as int] != prefix@[j as int]);
            }
            return false;
        }
        j = j + 1;
    }
    proof {
        assert(prefix@ =~= s@.subrange(0, plen as int));
    }
    true
}

/// Find a deep link among a process's arguments: the first argument that
/// begins with the application's `breeze:` URI scheme.
pub fn find_deep_link_arg(args: &Vec<String>) -> (r: Option<String>)
    ensures
        r.deep_view() == spec_find_prefixed(args.deep_view(), "breeze:"@),
{
    let n = args.len();
    proof {
        assert(args.deep_view().skip(0) =~= args.deep_view());
    }
    let mut i: usize = 0;
    while i < n
        invariant
            0 <= i <= n,
            n == args@.len(),
            spec_find_prefixed(args.deep_view(), "breeze:"@) == spec_find_prefixed(
                args.deep_view().skip(i as int),
                "breeze:"@,
            ),
        decreases n - i,
    {
        let ghost rest = args.deep_view().skip(i as int);
        proof {
            assert(rest[0] == args@[i as int]@);
        }
        if str_starts_with(args[i].as_str(), "breeze:") {
            let out = args[i].clone();
            return Some(out);
        }
        proof {
            assert(rest.skip(1) =~= args.deep_view().skip(i as int + 1));
        }
        i = i + 1;
    }
    None
}

} // verus!
