use vstd::prelude::*;
use vstd::string::StringSliceAdditionalSpecFns;
use vstd::utf8::{decode_utf8, is_char_boundary};

verus! {

/// The decimal digit for `d`.
pub open spec fn digit(d: nat) -> char {
    seq!['0', '1', '2', '3', '4', '5', '6', '7', '8', '9'][d as int]
}

/// `n` in decimal, without leading zeros.
pub open spec fn decimal(n: nat) -> Seq<char>
    decreases n,
{
    if n < 10 {
        seq![digit(n)]
    } else {
        decimal(n / 10) + seq![digit(n % 10)]
    }
}

/// `n / unit` in tenths, rounded to nearest, ties to even.
pub open spec fn tenths(n: nat, unit: nat) -> nat
    recommends
        unit > 0,
{
    let q = (n * 10) / unit;
    let r = (n * 10) % unit;
    if 2 * r > unit || (2 * r == unit && q % 2 == 1) {
        q + 1
    } else {
        q
    }
}

/// `t` tenths, written with one decimal.
pub open spec fn one_decimal(t: nat) -> Seq<char> {
    decimal(t / 10) + seq!['.', digit(t % 10)]
}

/// A byte count for people: whole bytes below 1024, else KB below 1024 * 1024, else MB,
/// with one decimal.
pub open spec fn size_text(bytes: nat) -> Seq<char> {
    if bytes < 1024 {
        decimal(bytes) + " B"@
    } else if bytes < 1024 * 1024 {
        one_decimal(tenths(bytes, 1024)) + " KB"@
    } else {
        one_decimal(tenths(bytes, 1024 * 1024)) + " MB"@
    }
}

fn digit_char(d: u64) -> (c: char)
    requires
        d < 10,
    ensures
        c == digit(d as nat),
{
    let ds = ['0', '1', '2', '3', '4', '5', '6', '7', '8', '9'];
    assert(ds@ =~= seq!['0', '1', '2', '3', '4', '5', '6', '7', '8', '9']);
    ds[d as usize]
}

/// Appends `n` in decimal.
pub fn push_decimal(out: &mut String, n: u64)
    ensures
        final(out)@ == old(out)@ + decimal(n as nat),
    decreases n,
{
    if n >= 10 {
        push_decimal(out, n / 10);
    }
    out.push(digit_char(n % 10));
    assert(final(out)@ =~= old(out)@ + decimal(n as nat));
}

/// Appends `t` tenths with one decimal.
fn push_one_decimal(out: &mut String, t: u64)
    ensures
        final(out)@ == old(out)@ + one_decimal(t as nat),
{
    push_decimal(out, t / 10);
    out.push('.');
    out.push(digit_char(t % 10));
    assert(final(out)@ =~= old(out)@ + one_decimal(t as nat));
}

fn rounded_tenths(n: u64, unit: u64) -> (t: u64)
    requires
        1024 <= unit,
    ensures
        t == tenths(n as nat, unit as nat),
{
    let wide: u128 = (n as u128) * 10;
    let u: u128 = unit as u128;
    let q: u128 = wide / u;
    let r: u128 = wide % u;
    assert(q * 1024 <= wide) by (nonlinear_arith)
        requires
            q == wide / u,
            u >= 1024,
    ;
    let up = 2 * r > u || (2 * r == u && q % 2 == 1);
    let t: u128 = if up { q + 1 } else { q };
    t as u64
}

/// A byte count for people: whole bytes below 1024, else KB below 1024 * 1024, else MB,
/// with one decimal rounded to nearest, ties to even.
pub fn format_size(bytes: usize) -> (r: String)
    ensures
        r@ == size_text(bytes as nat),
{
    let n = bytes as u64;
    let mut out = String::new();
    if n < 1024 {
        push_decimal(&mut out, n);
        out.append(" B");
    } else if n < 1024 * 1024 {
        push_one_decimal(&mut out, rounded_tenths(n, 1024));
        out.append(" KB");
    } else {
        push_one_decimal(&mut out, rounded_tenths(n, 1024 * 1024));
        out.append(" MB");
    }
    out
}

/// The text after cutting `s` to `max` bytes: longer text keeps its first `max - 3` bytes
/// (none where `max < 3`) followed by `...`.
pub open spec fn truncated(s: &str, max: nat) -> Seq<char> {
    if s.spec_bytes().len() > max {
        let keep = if max >= 3 { max - 3 } else { 0 };
        decode_utf8(s.spec_bytes().take(keep as int)) + "..."@
    } else {
        s@
    }
}

/// Cuts `s` to at most `max` bytes, marking a cut with `...`. The cut must fall between
/// two characters.
pub fn truncate_str(s: &str, max: usize) -> (r: String)
    requires
        s.spec_bytes().len() <= usize::MAX,
        s.spec_bytes().len() > max ==> is_char_boundary(
            s.spec_bytes(),
            if max >= 3 { max - 3 } else { 0 },
        ),
    ensures
        r@ == truncated(s, max as nat),
{
    if s.len() > max {
        let keep = max.saturating_sub(3);
        let (head, _) = s.split_at(keep);
        assert(head.spec_bytes() =~= s.spec_bytes().take(keep as int));
        proof {
            vstd::utf8::encode_utf8_decode_utf8(head@);
        }
        let mut r = head.to_owned();
        r.append("...");
        r
    } else {
        s.to_owned()
    }
}

} // verus!
