//! The base-32 encoding of hashes in Nix.

use vstd::arithmetic::div_mod::*;
use vstd::arithmetic::mul::*;
use vstd::arithmetic::power2::*;
use vstd::prelude::*;
use vstd::string::*;

verus! {

/// The characters that stand for the digits 0 to 31. The letters e, o, t and u
/// are not among them.
pub open spec fn base32_alphabet() -> Seq<char> {
    "0123456789abcdfghijklmnpqrsvwxyz"@
}

/// The number whose base-256 digits, the least significant first, are `data`.
pub open spec fn little_endian(data: Seq<u8>) -> nat
    decreases data.len(),
{
    if data.len() == 0 {
        0
    } else {
        data[0] as nat + 256 * little_endian(data.drop_first())
    }
}

/// The number of base-32 digits that hold `n` bytes.
pub open spec fn base32_len(n: nat) -> nat {
    (8 * n + 4) / 5
}

/// The base-32 digit of `value` with the weight of `k` digits below it.
pub open spec fn base32_digit(value: nat, k: nat) -> nat {
    value / pow2(5 * k) % 32
}

/// `data`, read as a little-endian number, in base 32 with the most significant
/// digit first.
pub open spec fn nix_base32(data: Seq<u8>) -> Seq<char> {
    Seq::new(
        base32_len(data.len()),
        |i: int|
            base32_alphabet()[base32_digit(
                little_endian(data),
                (base32_len(data.len()) - 1 - i) as nat,
            ) as int],
    )
}

/// A little-endian number is that of its first `n` bytes and that of the rest.
proof fn lemma_little_endian_split(data: Seq<u8>, n: nat) -> (low: nat)
    requires
        n <= data.len(),
    ensures
        low < pow2(8 * n),
        little_endian(data) == low + pow2(8 * n) * little_endian(data.skip(n as int)),
    decreases n,
{
    if n == 0 {
        lemma2_to64();
        assert(data.skip(0) == data);
        assert(pow2(0) * little_endian(data) == little_endian(data));
        0
    } else {
        let rest = data.drop_first();
        let m = (n - 1) as nat;
        let inner = lemma_little_endian_split(rest, m);
        assert(rest.skip(m as int) == data.skip(n as int));
        lemma2_to64();
        lemma_pow2_adds(8, 8 * m);
        let p = pow2(8 * m);
        let w = little_endian(data.skip(n as int));
        assert(pow2(8 * n) == 256 * p);
        assert(256 * (inner + p * w) == 256 * inner + (256 * p) * w) by (nonlinear_arith);
        data[0] as nat + 256 * inner
    }
}

/// Dividing by a power of two above a byte boundary looks at the bytes above it.
proof fn lemma_little_endian_shift(data: Seq<u8>, n: nat, t: nat)
    requires
        n <= data.len(),
    ensures
        little_endian(data) / pow2(8 * n + t) == little_endian(data.skip(n as int)) / pow2(t),
{
    let low = lemma_little_endian_split(data, n);
    let p = pow2(8 * n);
    let q = pow2(t);
    let w = little_endian(data.skip(n as int));
    lemma_pow2_pos(8 * n);
    lemma_pow2_pos(t);
    lemma_pow2_adds(8 * n, t);
    let v = little_endian(data);
    assert(v / p == w) by {
        lemma_mul_is_commutative(p as int, w as int);
        lemma_fundamental_div_mod_converse(v as int, p as int, w as int, low as int);
    }
    lemma_div_denominator(v as int, p as int, q as int);
}

/// The five bits of two neighbouring bytes from bit `t` on.
proof fn lemma_window_bits(low: u32, high: u32, t: u32)
    by (bit_vector)
    requires
        low < 256,
        high < 256,
        t < 8,
    ensures
        ((low >> t) | ((if t > 3 {
            high
        } else {
            0u32
        }) << (8 - t) as u32)) & 0x1f == ((low + 256 * high) as u32 >> t) & 0x1f,
        ((low + 256 * high) as u32 >> t) & 0x1f < 32,
{
}

proof fn lemma_window_value(x: u32, t: u32)
    requires
        t < 8,
    ensures
        (x >> t) & 0x1f == (x as nat / pow2(t as nat)) % 32,
{
    lemma2_to64();
    assert((x >> 0u32) & 0x1f == (x / 1) % 32) by (bit_vector);
    assert((x >> 1u32) & 0x1f == (x / 2) % 32) by (bit_vector);
    assert((x >> 2u32) & 0x1f == (x / 4) % 32) by (bit_vector);
    assert((x >> 3u32) & 0x1f == (x / 8) % 32) by (bit_vector);
    assert((x >> 4u32) & 0x1f == (x / 16) % 32) by (bit_vector);
    assert((x >> 5u32) & 0x1f == (x / 32) % 32) by (bit_vector);
    assert((x >> 6u32) & 0x1f == (x / 64) % 32) by (bit_vector);
    assert((x >> 7u32) & 0x1f == (x / 128) % 32) by (bit_vector);
    if t == 0 {
    } else if t == 1 {
    } else if t == 2 {
    } else if t == 3 {
    } else if t == 4 {
    } else if t == 5 {
    } else if t == 6 {
    } else {
        assert(t == 7);
    }
}

/// Five bits from bit `t` on depend on the lowest two bytes alone.
proof fn lemma_window_low(x: nat, rest: nat, t: nat)
    requires
        t < 8,
    ensures
        (x + 65536 * rest) / pow2(t) % 32 == x / pow2(t) % 32,
{
    lemma2_to64();
    let d = pow2(t) as int;
    let e: int = if t == 0 {
        2048
    } else if t == 1 {
        1024
    } else if t == 2 {
        512
    } else if t == 3 {
        256
    } else if t == 4 {
        128
    } else if t == 5 {
        64
    } else if t == 6 {
        32
    } else {
        16
    };
    assert(t == 7 || t < 7);
    assert(32 * (e * d) == 65536);
    assert(65536 * rest == 32 * (e * rest) * d) by (nonlinear_arith)
        requires
            32 * (e * d) == 65536,
    ;
    lemma_hoist_over_denominator(x as int, 32 * (e * rest), d as nat);
    lemma_mod_multiples_vanish(e * rest, x as int / d, 32);
}

/// Encode bytes as nix-base32.
pub fn nix_base32_encode(data: &[u8]) -> (r: String)
    requires
        data@.len() * 8 <= usize::MAX,
    ensures
        r@ == nix_base32(data@),
{
    let bits: usize = data.len() * 8;
    let len: usize = if bits % 5 == 0 {
        bits / 5
    } else {
        bits / 5 + 1
    };
    let mut out = String::new();
    proof {
        reveal_strlit("0123456789abcdfghijklmnpqrsvwxyz");
    }
    for i in 0..len
        invariant
            len == base32_len(data@.len()),
            data@.len() * 8 <= usize::MAX,
            base32_alphabet().len() == 32,
            out@ == nix_base32(data@).take(i as int),
    {
        let bit_offset: usize = (len - 1 - i) * 5;
        let byte_idx: usize = bit_offset / 8;
        let bit_idx: u32 = (bit_offset % 8) as u32;
        let low: u32 = data[byte_idx] as u32;
        let high: u32 = if byte_idx + 1 < data.len() {
            data[byte_idx + 1] as u32
        } else {
            0
        };
        let carried: u32 = if bit_idx > 3 {
            high
        } else {
            0
        };
        let val: u32 = ((low >> bit_idx) | (carried << (8 - bit_idx))) & 0x1f;
        proof {
            let k = (len - 1 - i) as nat;
            let t = bit_idx as nat;
            let tail = data@.skip(byte_idx as int);
            assert(5 * k == 8 * byte_idx + t);
            lemma_little_endian_shift(data@, byte_idx as nat, t);
            lemma_window_bits(low, high, bit_idx);
            let x = (low + 256 * high) as u32;
            lemma_window_value(x, bit_idx);
            let after = tail.drop_first();
            if after.len() == 0 {
                assert(little_endian(after) == 0);
                assert(little_endian(tail) == low);
                lemma_window_low(x as nat, 0, t);
            } else {
                assert(after[0] == high);
                assert(little_endian(after) == high + 256 * little_endian(after.drop_first()));
                assert(little_endian(tail) == x + 65536 * little_endian(after.drop_first()));
                lemma_window_low(x as nat, little_endian(after.drop_first()), t);
            }
            assert(val == base32_digit(little_endian(data@), k));
        }
        out.push("0123456789abcdfghijklmnpqrsvwxyz".get_char(val as usize));
        assert(out@ == nix_base32(data@).take(i + 1));
    }
    assert(nix_base32(data@).take(len as int) == nix_base32(data@));
    out
}

/// A little-endian number of `n` bytes is below the `n`-th power of 256.
proof fn lemma_little_endian_bound(data: Seq<u8>)
    ensures
        little_endian(data) < pow2(8 * data.len()),
    decreases data.len(),
{
    let low = lemma_little_endian_split(data, data.len());
    assert(little_endian(data.skip(data.len() as int)) == 0);
    assert(pow2(8 * data.len()) * 0 == 0);
}

/// Byte sequences of one length with the same little-endian number are equal.
proof fn lemma_little_endian_injective(a: Seq<u8>, b: Seq<u8>)
    requires
        a.len() == b.len(),
        little_endian(a) == little_endian(b),
    ensures
        a == b,
    decreases a.len(),
{
    if a.len() > 0 {
        lemma_little_endian_injective(a.drop_first(), b.drop_first());
        assert(a == seq![a[0]] + a.drop_first());
        assert(b == seq![b[0]] + b.drop_first());
    }
}

/// The digits above the lowest are those of the number without it.
proof fn lemma_digit_above(v: nat, k: nat)
    ensures
        base32_digit(v / 32, k) == base32_digit(v, k + 1),
{
    lemma2_to64();
    lemma_pow2_adds(5, 5 * k);
    lemma_pow2_pos(5 * k);
    lemma_div_denominator(v as int, 32, pow2(5 * k) as int);
}

/// Numbers of `n` digits with the same digits are equal.
proof fn lemma_digits_determine(v: nat, w: nat, n: nat)
    requires
        v < pow2(5 * n),
        w < pow2(5 * n),
        forall|k: nat| k < n ==> #[trigger] base32_digit(v, k) == base32_digit(w, k),
    ensures
        v == w,
    decreases n,
{
    lemma2_to64();
    if n > 0 {
        let m = (n - 1) as nat;
        lemma_pow2_adds(5, 5 * m);
        assert forall|k: nat| k < m implies #[trigger] base32_digit(v / 32, k) == base32_digit(
            w / 32,
            k,
        ) by {
            lemma_digit_above(v, k);
            lemma_digit_above(w, k);
            assert(base32_digit(v, k + 1) == base32_digit(w, k + 1));
        }
        lemma_digits_determine(v / 32, w / 32, m);
        assert(pow2(5 * 0) == 1);
        assert(base32_digit(v, 0) == v % 32 && base32_digit(w, 0) == w % 32);
    }
}

/// No character stands for two digits.
proof fn lemma_alphabet_distinct(d: nat, e: nat)
    requires
        d < 32,
        e < 32,
        base32_alphabet()[d as int] == base32_alphabet()[e as int],
    ensures
        d == e,
{
    reveal_strlit("0123456789abcdfghijklmnpqrsvwxyz");
}

/// Two byte sequences with the same encoding are equal: the encoding loses nothing.
pub proof fn base32_injective(a: Seq<u8>, b: Seq<u8>)
    requires
        nix_base32(a) == nix_base32(b),
    ensures
        a == b,
{
    assert(nix_base32(a).len() == base32_len(a.len()));
    assert(nix_base32(b).len() == base32_len(b.len()));
    assert(a.len() == b.len());
    let n = base32_len(a.len());
    let v = little_endian(a);
    let w = little_endian(b);
    assert forall|k: nat| k < n implies #[trigger] base32_digit(v, k) == base32_digit(w, k) by {
        let i = n - 1 - k;
        assert((n - 1 - i) as nat == k);
        assert(nix_base32(a)[i] == base32_alphabet()[base32_digit(v, k) as int]);
        assert(nix_base32(b)[i] == base32_alphabet()[base32_digit(w, k) as int]);
        lemma_alphabet_distinct(base32_digit(v, k), base32_digit(w, k));
    }
    lemma_little_endian_bound(a);
    lemma_little_endian_bound(b);
    if 8 * a.len() < 5 * n {
        lemma_pow2_strictly_increases(8 * a.len(), 5 * n);
    }
    lemma_digits_determine(v, w, n);
    lemma_little_endian_injective(a, b);
}

/// An encoding has eight bits to five per character, rounded up, and holds
/// characters of the alphabet only.
pub proof fn base32_shape(data: Seq<u8>)
    ensures
        5 * nix_base32(data).len() >= 8 * data.len(),
        5 * nix_base32(data).len() < 8 * data.len() + 5,
        forall|i: int|
            0 <= i < nix_base32(data).len() ==> base32_alphabet().contains(
                #[trigger] nix_base32(data)[i],
            ),
{
    reveal_strlit("0123456789abcdfghijklmnpqrsvwxyz");
}

/// The number that base-32 digits stand for, the most significant first. A digit is the
/// position of its character in the alphabet.
pub open spec fn base32_value(s: Seq<char>) -> int
    decreases s.len(),
{
    if s.len() == 0 {
        0
    } else {
        32 * base32_value(s.drop_last()) + "0123456789abcdfghijklmnpqrsvwxyz"@.index_of(s.last())
    }
}

/// An encoding stands for the number that the bytes stand for, the least significant byte
/// first, with as many digits as the bytes need.
pub proof fn encoding_stands_for_the_bytes(data: Seq<u8>)
    ensures
        base32_value(nix_base32(data)) == little_endian(data),
        nix_base32(data).len() == (8 * data.len() + 4) / 5,
{
    let n = base32_len(data.len());
    let v = little_endian(data);
    lemma_value_of_digits(data, n);
    assert(nix_base32(data).take(n as int) == nix_base32(data));
    lemma_little_endian_bound(data);
    lemma2_to64();
    assert((5 * (n - n)) as nat == 0);
    assert(pow2(0) == 1);
    assert(v as int / 1 == v) by (nonlinear_arith);
}

proof fn lemma_value_of_digits(data: Seq<u8>, j: nat)
    requires
        j <= base32_len(data.len()),
    ensures
        base32_value(nix_base32(data).take(j as int)) == little_endian(data) / pow2(
            (5 * (base32_len(data.len()) - j)) as nat,
        ),
    decreases j,
{
    let n = base32_len(data.len());
    let v = little_endian(data);
    let all = nix_base32(data);
    if j == 0 {
        lemma_little_endian_bound(data);
        if 8 * data.len() < 5 * n {
            lemma_pow2_strictly_increases(8 * data.len(), 5 * n);
        }
        lemma_basic_div(v as int, pow2(5 * n) as int);
        assert(all.take(0).len() == 0);
    } else {
        let i = (j - 1) as nat;
        lemma_value_of_digits(data, i);
        let s = all.take(j as int);
        assert(s.drop_last() == all.take(i as int));
        let k = (n - j) as nat;
        let d = base32_digit(v, k);
        assert(s.last() == base32_alphabet()[d as int]);
        lemma_alphabet_index(d);
        lemma2_to64();
        lemma_pow2_adds(5 * k, 5);
        lemma_pow2_pos(5 * k);
        let q = v / pow2(5 * k);
        lemma_div_denominator(v as int, pow2(5 * k) as int, 32);
        assert(pow2((5 * (n - i)) as nat) == pow2(5 * k) * 32);
        assert(v / pow2((5 * (n - i)) as nat) == q / 32);
        assert(q == 32 * (q / 32) + q % 32);
    }
}

proof fn lemma_alphabet_index(d: nat)
    requires
        d < 32,
    ensures
        "0123456789abcdfghijklmnpqrsvwxyz"@.index_of(base32_alphabet()[d as int]) == d,
{
    let alphabet = "0123456789abcdfghijklmnpqrsvwxyz"@;
    reveal_strlit("0123456789abcdfghijklmnpqrsvwxyz");
    let c = base32_alphabet()[d as int];
    assert(alphabet[d as int] == c);
    let e = alphabet.index_of(c);
    assert(alphabet.contains(c));
    assert(0 <= e < 32 && alphabet[e] == c);
    lemma_alphabet_distinct(d, e as nat);
}

/// A byte counts 256 times as much as the byte before it.
pub proof fn later_bytes_count_more(data: Seq<u8>, b: u8)
    ensures
        little_endian(Seq::empty()) == 0,
        little_endian(seq![b]) == b,
        little_endian(seq![b] + data) == b + 256 * little_endian(data),
        little_endian(data.push(b)) == little_endian(data) + pow2(8 * data.len()) * b,
    decreases data.len(),
{
    assert((seq![b] + data).drop_first() == data);
    assert(seq![b].drop_first() == Seq::<u8>::empty());
    assert(little_endian(Seq::<u8>::empty()) == 0);
    lemma2_to64();
    let all = data.push(b);
    if data.len() == 0 {
        assert(all == seq![b]);
    } else {
        let rest = data.drop_first();
        later_bytes_count_more(rest, b);
        assert(all.drop_first() == rest.push(b));
        assert(all[0] == data[0]);
        lemma_pow2_adds(8, 8 * rest.len());
        let p = pow2(8 * rest.len());
        assert(256 * (p * b) == (256 * p) * b) by (nonlinear_arith);
    }
}

}
