//! Fixed-width lowercase hexadecimal encoding of 128-bit values, lowest
//! nibble first, with a proved round trip. The token codec writes every
//! numeric claim in this form.

use vstd::prelude::*;

verus! {

/// The number of hex digits each encoded value occupies.
pub const HEX_WIDTH: usize = 32;

/// `16^k`.
pub open spec fn pow16(k: nat) -> int
    decreases k,
{
    if k == 0 {
        1
    } else {
        16 * pow16((k - 1) as nat)
    }
}

/// The lowercase hex digit byte for a nibble value.
pub open spec fn hex_digit(d: int) -> u8 {
    if d < 10 {
        (48 + d) as u8
    } else {
        (87 + d) as u8
    }
}

/// Whether a byte is a lowercase hex digit.
pub open spec fn is_hex_digit(c: u8) -> bool {
    (48 <= c && c <= 57) || (97 <= c && c <= 102)
}

/// The nibble value of a lowercase hex digit byte.
pub open spec fn hex_value(c: u8) -> int {
    if c <= 57 {
        c - 48
    } else {
        c - 87
    }
}

/// Whether every byte of `s` is a lowercase hex digit.
pub open spec fn all_hex(s: Seq<u8>) -> bool {
    forall|i: int| 0 <= i < s.len() ==> is_hex_digit(#[trigger] s[i])
}

/// `n` encoded as `k` hex digits, lowest nibble first.
pub open spec fn hex_le(n: int, k: nat) -> Seq<u8>
    decreases k,
{
    if k == 0 {
        Seq::empty()
    } else {
        seq![hex_digit(n % 16)] + hex_le(n / 16, (k - 1) as nat)
    }
}

/// The value of a hex digit sequence read lowest nibble first.
pub open spec fn hex_val(s: Seq<u8>) -> int
    decreases s.len(),
{
    if s.len() == 0 {
        0
    } else {
        hex_value(s[0]) + 16 * hex_val(s.drop_first())
    }
}

pub proof fn lemma_pow16_positive(k: nat)
    ensures
        pow16(k) >= 1,
    decreases k,
{
    if k > 0 {
        lemma_pow16_positive((k - 1) as nat);
    }
}

pub proof fn lemma_pow16_increases(a: nat, b: nat)
    requires
        a <= b,
    ensures
        pow16(a) <= pow16(b),
    decreases b,
{
    if a < b {
        lemma_pow16_increases(a, (b - 1) as nat);
        lemma_pow16_positive((b - 1) as nat);
    }
}

/// An encoding has exactly the requested width and is made of hex digits.
pub proof fn lemma_hex_le_shape(n: int, k: nat)
    requires
        n >= 0,
    ensures
        hex_le(n, k).len() == k,
        all_hex(hex_le(n, k)),
    decreases k,
{
    if k > 0 {
        lemma_hex_le_shape(n / 16, (k - 1) as nat);
        assert(0 <= n % 16 < 16);
    }
}

/// A sequence of hex digits encodes a value below `16^len`.
pub proof fn lemma_hex_val_bound(s: Seq<u8>)
    requires
        all_hex(s),
    ensures
        0 <= hex_val(s) < pow16(s.len()),
    decreases s.len(),
{
    if s.len() > 0 {
        assert(is_hex_digit(s[0]));
        assert(all_hex(s.drop_first()));
        lemma_hex_val_bound(s.drop_first());
    }
}

/// Decoding inverts encoding for every value that fits in the width.
pub proof fn lemma_hex_round_trip(n: int, k: nat)
    requires
        0 <= n < pow16(k),
    ensures
        hex_val(hex_le(n, k)) == n,
    decreases k,
{
    if k == 0 {
        assert(pow16(0) == 1);
    } else {
        let d = n % 16;
        let q = n / 16;
        vstd::arithmetic::div_mod::lemma_fundamental_div_mod(n, 16);
        assert(q < pow16((k - 1) as nat)) by {
            lemma_pow16_positive((k - 1) as nat);
            assert(n < 16 * pow16((k - 1) as nat));
            assert(n == 16 * q + d);
            assert(q < pow16((k - 1) as nat)) by (nonlinear_arith)
                requires
                    16 * q + d == n,
                    n < 16 * pow16((k - 1) as nat),
                    0 <= d < 16,
                    pow16((k - 1) as nat) >= 1,
            ;
        }
        lemma_hex_round_trip(q, (k - 1) as nat);
        assert(hex_value(hex_digit(d)) == d);
        assert(hex_le(n, k).drop_first() =~= hex_le(q, (k - 1) as nat));
        assert(hex_le(n, k)[0] == hex_digit(d));
    }
}

/// Every `u128` fits in `HEX_WIDTH` hex digits.
pub proof fn lemma_u128_fits()
    ensures
        pow16(HEX_WIDTH as nat) == 0x1_0000_0000_0000_0000_0000_0000_0000_0000,
{
    reveal_with_fuel(pow16, 33);
    assert(pow16(32) == 0x1_0000_0000_0000_0000_0000_0000_0000_0000);
}

/// Appends the `HEX_WIDTH`-digit encoding of `n` to `out`.
pub fn hex_encode(n: u128, out: &mut Vec<u8>)
    ensures
        final(out)@ == old(out)@ + hex_le(n as int, HEX_WIDTH as nat),
{
    let ghost complete = old(out)@ + hex_le(n as int, HEX_WIDTH as nat);
    let mut m: u128 = n;
    let mut k: usize = 0;
    while k < HEX_WIDTH
        invariant
            k <= HEX_WIDTH,
            complete == old(out)@ + hex_le(n as int, HEX_WIDTH as nat),
            complete == out@ + hex_le(m as int, (HEX_WIDTH - k) as nat),
        decreases HEX_WIDTH - k,
    {
        let d: u8 = (m % 16) as u8;
        let c: u8 = if d < 10 {
            d + 48
        } else {
            d + 87
        };
        proof {
            assert(c == hex_digit(m as int % 16));
            assert(hex_le(m as int, (HEX_WIDTH - k) as nat) == seq![c] + hex_le(
                m as int / 16,
                (HEX_WIDTH - k - 1) as nat,
            ));
            assert(out@ + hex_le(m as int, (HEX_WIDTH - k) as nat) == out@.push(c) + hex_le(
                m as int / 16,
                (HEX_WIDTH - k - 1) as nat,
            )) by {
                assert(out@ + (seq![c] + hex_le(m as int / 16, (HEX_WIDTH - k - 1) as nat))
                    =~= out@.push(c) + hex_le(m as int / 16, (HEX_WIDTH - k - 1) as nat));
            }
        }
        out.push(c);
        m = m / 16;
        k = k + 1;
    }
    proof {
        assert(hex_le(m as int, 0) =~= Seq::<u8>::empty());
        assert(out@ + Seq::<u8>::empty() =~= out@);
    }
}

/// Decodes the `HEX_WIDTH` hex digits of `s` starting at `start`.
pub fn hex_decode(s: &Vec<u8>, start: usize) -> (r: u128)
    requires
        start + HEX_WIDTH <= s@.len(),
        all_hex(s@.subrange(start as int, start as int + HEX_WIDTH)),
    ensures
        r as int == hex_val(s@.subrange(start as int, start as int + HEX_WIDTH)),
{
    let ghost whole = s@.subrange(start as int, start as int + HEX_WIDTH);
    let slen: usize = s.len();
    let mut acc: u128 = 0;
    let mut i: usize = HEX_WIDTH;
    proof {
        assert(whole.subrange(HEX_WIDTH as int, HEX_WIDTH as int) =~= Seq::<u8>::empty());
    }
    while i > 0
        invariant
            i <= HEX_WIDTH,
            start + HEX_WIDTH <= slen,
            slen == s@.len(),
            whole == s@.subrange(start as int, start as int + HEX_WIDTH),
            all_hex(whole),
            acc as int == hex_val(whole.subrange(i as int, HEX_WIDTH as int)),
            (acc as int) < pow16((HEX_WIDTH - i) as nat),
        decreases i,
    {
        let c: u8 = s[start + (i - 1)];
        proof {
            assert(whole[i - 1] == c);
            assert(is_hex_digit(c));
        }
        let v: u8 = if c <= 57 {
            c - 48
        } else {
            c - 87
        };
        let ghost tail = whole.subrange(i as int, HEX_WIDTH as int);
        let ghost head = whole.subrange(i - 1, HEX_WIDTH as int);
        proof {
            assert(head.drop_first() =~= tail);
            assert(head[0] == c);
            assert(hex_val(head) == hex_value(c) + 16 * hex_val(tail));
            assert(pow16((HEX_WIDTH - i + 1) as nat) == 16 * pow16((HEX_WIDTH - i) as nat));
            lemma_pow16_increases((HEX_WIDTH - i + 1) as nat, HEX_WIDTH as nat);
            lemma_u128_fits();
        }
        acc = acc * 16 + (v as u128);
        i = i - 1;
    }
    proof {
        assert(whole.subrange(0, HEX_WIDTH as int) =~= whole);
    }
    acc
}

} // verus!
