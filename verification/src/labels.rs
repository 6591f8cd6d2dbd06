//! Window labels.
//!
//! The primary window lives under the reserved label `"main"`; every other
//! window is named `"session-N"` from a monotonically increasing counter, so
//! labels are unique for the whole process lifetime.

use vstd::prelude::*;

verus! {

/// The reserved label of the primary window.
pub open spec fn main_label() -> Seq<char> {
    "main"@
}

/// The decimal digit character for `d` (expects `d < 10`).
pub open spec fn digit_char(d: nat) -> char {
    ((48 + d) as u8) as char
}

/// The decimal digits of `n`, most significant first, no leading zeros
/// (a single `'0'` for zero).
pub open spec fn dec_digits(n: nat) -> Seq<char>
    decreases n,
{
    if n < 10 {
        seq![digit_char(n)]
    } else {
        dec_digits(n / 10).push(digit_char(n % 10))
    }
}

/// The label of the `n`-th window the router created.
pub open spec fn session_label(n: nat) -> Seq<char> {
    "session-"@ + dec_digits(n)
}

/// `label` is one the router can have produced while its counter was at most
/// `counter`: the reserved primary label, or a counter-generated one.
pub open spec fn label_from_counter(label: Seq<char>, counter: nat) -> bool {
    label == main_label() || exists|k: nat| 1 <= k <= counter && label == session_label(k)
}

proof fn lemma_dec_digits_len(n: nat)
    ensures
        n < 10 ==> dec_digits(n).len() == 1,
        n >= 10 ==> dec_digits(n).len() >= 2,
    decreases n,
{
    if n >= 10 {
        lemma_dec_digits_len(n / 10);
    }
}

proof fn lemma_digit_char_injective(a: nat, b: nat)
    requires
        a < 10,
        b < 10,
        digit_char(a) == digit_char(b),
    ensures
        a == b,
{
    assert(digit_char(a) as u8 == 48 + a);
    assert(digit_char(b) as u8 == 48 + b);
}

proof fn lemma_dec_digits_injective(a: nat, b: nat)
    requires
        dec_digits(a) == dec_digits(b),
    ensures
        a == b,
    decreases a,
{
    lemma_dec_digits_len(a);
    lemma_dec_digits_len(b);
    if a < 10 && b < 10 {
        assert(dec_digits(a) == seq![digit_char(a)]);
        assert(dec_digits(b) == seq![digit_char(b)]);
        assert(seq![digit_char(a)][0] == digit_char(a));
        assert(seq![digit_char(b)][0] == digit_char(b));
        lemma_digit_char_injective(a, b);
    } else if a < 10 || b < 10 {
        assert(dec_digits(a).len() == dec_digits(b).len());
        assert(false);
    } else {
        assert(dec_digits(a) == dec_digits(a / 10).push(digit_char(a % 10)));
        assert(dec_digits(b) == dec_digits(b / 10).push(digit_char(b % 10)));
        assert(dec_digits(a).last() == digit_char(a % 10));
        assert(dec_digits(b).last() == digit_char(b % 10));
        lemma_digit_char_injective(a % 10, b % 10);
        assert(dec_digits(a / 10) =~= dec_digits(a).drop_last());
        assert(dec_digits(b / 10) =~= dec_digits(b).drop_last());
        lemma_dec_digits_injective(a / 10, b / 10);
        assert(a == 10 * (a / 10) + a % 10);
        assert(b == 10 * (b / 10) + b % 10);
    }
}

/// Distinct counter values give distinct window labels: a label is never
/// reused, even after the window it named is gone.
pub proof fn lemma_session_label_injective(a: nat, b: nat)
    requires
        session_label(a) == session_label(b),
    ensures
        a == b,
{
    reveal_strlit("session-");
    assert(dec_digits(a) =~= session_label(a).skip(8));
    assert(dec_digits(b) =~= session_label(b).skip(8));
    lemma_dec_digits_injective(a, b);
}

/// No counter-generated label collides with the reserved primary label.
pub proof fn lemma_session_label_not_main(n: nat)
    ensures
        session_label(n) != main_label(),
{
    reveal_strlit("session-");
    reveal_strlit("main");
    lemma_dec_digits_len(n);
    assert(session_label(n).len() >= 9);
}

fn push_dec_digits(s: &mut String, n: u32)
    ensures
        final(s)@ == old(s)@ + dec_digits(n as nat),
    decreases n,
{
    if n >= 10 {
        push_dec_digits(s, n / 10);
    }
    let d = (n % 10) as usize;
    let digits = "0123456789";
    proof {
        reveal_strlit("0123456789");
        assert(digits.is_ascii());
    }
    let piece = digits.substring_ascii(d, d + 1);
    s.append(piece);
    proof {
        assert(piece@ =~= seq![digit_char((n % 10) as nat)]) by {
            assert(digits@[d as int] == digit_char((n % 10) as nat));
        }
        assert(s@ =~= old(s)@ + dec_digits(n as nat));
    }
}

/// The primary window's label as a fresh string.
pub fn primary_label() -> (s: String)
    ensures
        s@ == main_label(),
{
    String::from_str("main")
}

/// The label of the `n`-th router-created window, `"session-N"`.
pub fn make_session_label(n: u32) -> (s: String)
    ensures
        s@ == session_label(n as nat),
{
    let mut s = String::from_str("session-");
    push_dec_digits(&mut s, n);
    s
}

} // verus!
