//! Stream identifiers.
//!
//! A streamed response is keyed by a fresh identifier in v4 UUID shape. The
//! identifier is derived from the clock, so only its shape can be promised;
//! the rendering itself is exact.

use vstd::prelude::*;

verus! {

/// Lowercase hex digit character for `d` (expects `d < 16`).
pub open spec fn hex_char(d: nat) -> char {
    if d < 10 {
        ((48 + d) as u8) as char
    } else {
        ((87 + d) as u8) as char
    }
}

/// The `width` low hex digits of `v`, most significant first, zero-padded.
pub open spec fn hex_digits(v: nat, width: nat) -> Seq<char>
    decreases width,
{
    if width == 0 {
        Seq::empty()
    } else {
        hex_digits(v / 16, (width - 1) as nat).push(hex_char(v % 16))
    }
}

/// The v4-UUID-shaped rendering of `val`: five dash-separated lowercase hex
/// groups of 8, 4, 4, 4 and 12 digits, with the version nibble `4` and the
/// variant bits `10`.
pub open spec fn spec_uuid(val: u128) -> Seq<char> {
    hex_digits(((val >> 96) as u32) as nat, 8) + seq!['-'] + hex_digits(
        ((val >> 80) as u16) as nat,
        4,
    ) + seq!['-', '4'] + hex_digits((((val >> 64) as u16) & 0x0fff) as nat, 3) + seq!['-']
        + hex_digits(((((val >> 48) as u16) & 0x3fff) | 0x8000) as nat, 4) + seq!['-'] + hex_digits(
        ((val as u64) & 0xffff_ffff_ffff) as nat,
        12,
    )
}

fn push_hex(s: &mut String, v: u64, width: usize)
    ensures
        final(s)@ == old(s)@ + hex_digits(v as nat, width as nat),
    decreases width,
{
    if width == 0 {
        proof {
            assert(s@ =~= old(s)@ + hex_digits(v as nat, 0));
        }
        return ;
    }
    push_hex(s, v / 16, width - 1);
    let d = (v % 16) as usize;
    let digits = "0123456789abcdef";
    proof {
        reveal_strlit("0123456789abcdef");
        assert(digits.is_ascii());
    }
    let piece = digits.substring_ascii(d, d + 1);
    s.append(piece);
    proof {
        assert(piece@ =~= seq![hex_char((v % 16) as nat)]) by {
            assert(digits@[d as int] == hex_char((v % 16) as nat));
        }
        assert(s@ =~= old(s)@ + hex_digits(v as nat, width as nat));
    }
}

/// Render `val` in v4 UUID shape, exactly [`spec_uuid`].
pub fn format_uuid(val: u128) -> (s: String)
    ensures
        s@ == spec_uuid(val),
{
    let mut s = String::new();
    push_hex(&mut s, ((val >> 96) as u32) as u64, 8);
    s.append("-");
    push_hex(&mut s, ((val >> 80) as u16) as u64, 4);
    s.append("-4");
    push_hex(&mut s, (((val >> 64) as u16) & 0x0fff) as u64, 3);
    s.append("-");
    push_hex(&mut s, ((((val >> 48) as u16) & 0x3fff) | 0x8000) as u64, 4);
    s.append("-");
    push_hex(&mut s, (val as u64) & 0xffff_ffff_ffff, 12);
    proof {
        reveal_strlit("-");
        reveal_strlit("-4");
        assert("-"@ =~= seq!['-']);
        assert("-4"@ =~= seq!['-', '4']);
        assert(s@ =~= spec_uuid(val));
    }
    s
}

proof fn lemma_hex_digits_len(v: nat, width: nat)
    ensures
        hex_digits(v, width).len() == width,
    decreases width,
{
    if width > 0 {
        lemma_hex_digits_len(v / 16, (width - 1) as nat);
    }
}

/// The rendered identifier always has the v4 UUID shape: 36 characters,
/// dashes at the group boundaries, and the version nibble `4`.
pub proof fn lemma_spec_uuid_shape(val: u128)
    ensures
        spec_uuid(val).len() == 36,
        spec_uuid(val)[8] == '-',
        spec_uuid(val)[13] == '-',
        spec_uuid(val)[14] == '4',
        spec_uuid(val)[18] == '-',
        spec_uuid(val)[23] == '-',
{
    lemma_hex_digits_len(((val >> 96) as u32) as nat, 8);
    lemma_hex_digits_len(((val >> 80) as u16) as nat, 4);
    lemma_hex_digits_len((((val >> 64) as u16) & 0x0fff) as nat, 3);
    lemma_hex_digits_len(((((val >> 48) as u16) & 0x3fff) | 0x8000) as nat, 4);
    lemma_hex_digits_len(((val as u64) & 0xffff_ffff_ffff) as nat, 12);
}

/// Relies on std::time::SystemTime::now: the nanoseconds since the Unix
/// epoch, zero if the clock reads earlier than the epoch. A clock reading
/// depends on the machine and the moment, so nothing is promised of it.
#[verifier::external_body]
fn now_unix_nanos() -> u128 {
    std::time::SystemTime::now().duration_since(std::time::UNIX_EPOCH).unwrap_or_default().as_nanos()
}

/// A fresh identifier in v4 UUID shape, derived from the clock.
pub fn uuid_v4() -> (r: String)
    ensures
        exists|v: u128| r@ == #[trigger] spec_uuid(v),
        r@.len() == 36,
        r@[8] == '-',
        r@[13] == '-',
        r@[14] == '4',
        r@[18] == '-',
        r@[23] == '-',
{
    let val = now_unix_nanos();
    let s = format_uuid(val);
    proof {
        lemma_spec_uuid_shape(val);
        assert(s@ == spec_uuid(val));
    }
    s
}

/// A fresh stream identifier: `stream-` followed by a v4-UUID-shaped tag.
pub fn new_stream_id() -> (r: String)
    ensures
        exists|v: u128| r@ == "stream-"@ + #[trigger] spec_uuid(v),
        r@.len() == 43,
        "stream-"@.is_prefix_of(r@),
{
    let mut r = String::from_str("stream-");
    let id = uuid_v4();
    r.append(id.as_str());
    proof {
        reveal_strlit("stream-");
        assert("stream-"@ =~= r@.subrange(0, 7));
        let v = choose|v: u128| id@ == spec_uuid(v);
        assert(r@ == "stream-"@ + spec_uuid(v));
    }
    r
}

} // verus!
