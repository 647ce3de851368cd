//! Fixed-width lowercase hexadecimal digits, as used in the claims text.

use vstd::prelude::*;
use vstd::string::*;
use vstd::utf8::is_ascii_chars;

verus! {

/// The digit of value `d`.
pub open spec fn hex_char(d: nat) -> char {
    if d == 0 { '0' } else if d == 1 { '1' } else if d == 2 { '2' } else if d == 3 { '3' }
    else if d == 4 { '4' } else if d == 5 { '5' } else if d == 6 { '6' } else if d == 7 { '7' }
    else if d == 8 { '8' } else if d == 9 { '9' } else if d == 10 { 'a' } else if d == 11 { 'b' }
    else if d == 12 { 'c' } else if d == 13 { 'd' } else if d == 14 { 'e' } else { 'f' }
}

/// Whether `c` is a lowercase hexadecimal digit.
pub open spec fn is_hex(c: char) -> bool {
    ('0' <= c && c <= '9') || ('a' <= c && c <= 'f')
}

/// The value of the digit `c`.
pub open spec fn hex_value(c: char) -> nat {
    if c == '0' { 0 } else if c == '1' { 1 } else if c == '2' { 2 } else if c == '3' { 3 }
    else if c == '4' { 4 } else if c == '5' { 5 } else if c == '6' { 6 } else if c == '7' { 7 }
    else if c == '8' { 8 } else if c == '9' { 9 } else if c == 'a' { 10 } else if c == 'b' { 11 }
    else if c == 'c' { 12 } else if c == 'd' { 13 } else if c == 'e' { 14 } else { 15 }
}

pub open spec fn all_hex(s: Seq<char>) -> bool {
    forall|i: int| 0 <= i < s.len() ==> is_hex(#[trigger] s[i])
}

/// `n` written with exactly `width` digits, most significant first (higher
/// digits beyond `width` are dropped).
pub open spec fn hex_width(n: nat, width: nat) -> Seq<char>
    decreases width,
{
    if width == 0 {
        Seq::empty()
    } else {
        hex_width(n / 16, (width - 1) as nat).push(hex_char(n % 16))
    }
}

/// The number that the digits `s` denote.
pub open spec fn hex_val(s: Seq<char>) -> nat
    decreases s.len(),
{
    if s.len() == 0 {
        0
    } else {
        hex_val(s.drop_last()) * 16 + hex_value(s.last())
    }
}

pub open spec fn pow16(w: nat) -> nat
    decreases w,
{
    if w == 0 {
        1
    } else {
        16 * pow16((w - 1) as nat)
    }
}

proof fn lemma_digit(d: nat)
    requires
        d < 16,
    ensures
        is_hex(hex_char(d)),
        hex_value(hex_char(d)) == d,
{
}

pub proof fn lemma_pow16_u64()
    ensures
        pow16(16) == 0x1_0000_0000_0000_0000,
{
    reveal_with_fuel(pow16, 17);
}

proof fn lemma_pow16_mono(a: nat, b: nat)
    requires
        a <= b,
    ensures
        pow16(a) <= pow16(b),
    decreases b,
{
    if a < b {
        lemma_pow16_mono(a, (b - 1) as nat);
    }
}

/// Writing a number that fits in `width` digits and reading it back gives it
/// unchanged.
pub proof fn lemma_hex_round_trip(n: nat, width: nat)
    requires
        n < pow16(width),
    ensures
        hex_width(n, width).len() == width,
        all_hex(hex_width(n, width)),
        hex_val(hex_width(n, width)) == n,
    decreases width,
{
    if width > 0 {
        let w1 = (width - 1) as nat;
        assert(n / 16 < pow16(w1)) by (nonlinear_arith)
            requires
                n < 16 * pow16(w1),
        ;
        lemma_hex_round_trip(n / 16, w1);
        lemma_digit(n % 16);
        let s = hex_width(n, width);
        assert(s.drop_last() =~= hex_width(n / 16, w1));
        assert(all_hex(s)) by {
            assert forall|i: int| 0 <= i < s.len() implies is_hex(#[trigger] s[i]) by {
                if i < w1 {
                    assert(s[i] == hex_width(n / 16, w1)[i]);
                }
            }
        }
    }
}

/// Digits `s` denote a number below `16^len`.
pub proof fn lemma_hex_val_bound(s: Seq<char>)
    requires
        all_hex(s),
    ensures
        hex_val(s) < pow16(s.len()),
    decreases s.len(),
{
    if s.len() > 0 {
        let p = s.drop_last();
        assert(all_hex(p)) by {
            assert forall|i: int| 0 <= i < p.len() implies is_hex(#[trigger] p[i]) by {
                assert(p[i] == s[i]);
            }
        }
        lemma_hex_val_bound(p);
        assert(is_hex(s[s.len() - 1]));
        let v = hex_value(s.last());
        assert(v < 16);
        let a = hex_val(p);
        let q = pow16(p.len());
        assert(a * 16 + v < 16 * q) by (nonlinear_arith)
            requires
                a < q,
                v < 16,
        ;
    }
}

/// Hexadecimal digits are ASCII.
pub proof fn lemma_hex_is_ascii(s: Seq<char>)
    requires
        all_hex(s),
    ensures
        is_ascii_chars(s),
{
    assert forall|i: int| 0 <= i < s.len() implies '\0' <= #[trigger] s[i] <= '\u{7f}' by {
        assert(is_hex(s[i]));
    }
}

/// The one-character text of the digit of value `d`.
fn digit_str(d: u64) -> (r: &'static str)
    requires
        d < 16,
    ensures
        r@ == seq![hex_char(d as nat)],
{
    proof {
        reveal_strlit("0");
        reveal_strlit("1");
        reveal_strlit("2");
        reveal_strlit("3");
        reveal_strlit("4");
        reveal_strlit("5");
        reveal_strlit("6");
        reveal_strlit("7");
        reveal_strlit("8");
        reveal_strlit("9");
        reveal_strlit("a");
        reveal_strlit("b");
        reveal_strlit("c");
        reveal_strlit("d");
        reveal_strlit("e");
        reveal_strlit("f");
    }
    if d == 0 { "0" } else if d == 1 { "1" } else if d == 2 { "2" } else if d == 3 { "3" }
    else if d == 4 { "4" } else if d == 5 { "5" } else if d == 6 { "6" } else if d == 7 { "7" }
    else if d == 8 { "8" } else if d == 9 { "9" } else if d == 10 { "a" } else if d == 11 { "b" }
    else if d == 12 { "c" } else if d == 13 { "d" } else if d == 14 { "e" } else { "f" }
}

/// Appends `n` to `out` as exactly `width` digits.
pub fn push_hex(out: &mut String, n: u64, width: u64)
    ensures
        final(out)@ == old(out)@ + hex_width(n as nat, width as nat),
    decreases width,
{
    if width > 0 {
        push_hex(out, n / 16, width - 1);
        out.append(digit_str(n % 16));
        proof {
            let w1 = (width - 1) as nat;
            assert(hex_width(n as nat, width as nat) == hex_width((n / 16) as nat, w1).push(
                hex_char((n % 16) as nat),
            ));
        }
        assert(out@ =~= old(out)@ + hex_width(n as nat, width as nat));
    } else {
        assert(out@ =~= old(out)@ + hex_width(n as nat, width as nat));
    }
}

/// Whether `c` is a lowercase hexadecimal digit.
pub fn is_hex_digit(c: char) -> (r: bool)
    ensures
        r == is_hex(c),
{
    ('0' <= c && c <= '9') || ('a' <= c && c <= 'f')
}

fn digit_value(c: char) -> (r: u64)
    requires
        is_hex(c),
    ensures
        r == hex_value(c),
{
    match c {
        '0' => 0, '1' => 1, '2' => 2, '3' => 3, '4' => 4, '5' => 5, '6' => 6, '7' => 7,
        '8' => 8, '9' => 9, 'a' => 10, 'b' => 11, 'c' => 12, 'd' => 13, 'e' => 14, _ => 15,
    }
}

/// Reads the 16 digits of `s` that start at `start`.
pub fn parse_hex16(s: &str, start: usize) -> (r: u64)
    requires
        start + 16 <= s@.len() <= usize::MAX,
        all_hex(s@.subrange(start as int, start + 16)),
    ensures
        r as nat == hex_val(s@.subrange(start as int, start + 16)),
{
    let mut acc: u64 = 0;
    let mut k: usize = 0;
    while k < 16
        invariant
            k <= 16,
            start + 16 <= s@.len() <= usize::MAX,
            all_hex(s@.subrange(start as int, start + 16)),
            acc as nat == hex_val(s@.subrange(start as int, start + k)),
        decreases 16 - k,
    {
        let c = s.get_char(start + k);
        let prefix = Ghost(s@.subrange(start as int, start + k + 1));
        proof {
            assert(prefix@.drop_last() =~= s@.subrange(start as int, start + k));
            assert(c == s@.subrange(start as int, start + 16)[k as int]);
            assert(all_hex(prefix@)) by {
                assert forall|i: int| 0 <= i < prefix@.len() implies is_hex(#[trigger] prefix@[i]) by {
                    assert(prefix@[i] == s@.subrange(start as int, start + 16)[i]);
                }
            }
            lemma_hex_val_bound(prefix@);
            lemma_pow16_mono((k + 1) as nat, 16);
            lemma_pow16_u64();
        }
        let d = digit_value(c);
        acc = acc * 16 + d;
        k = k + 1;
    }
    acc
}

} // verus!
