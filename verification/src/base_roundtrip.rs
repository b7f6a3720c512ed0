//! The basE91 decoder reads back what the encoder writes.
use vstd::prelude::*;
use vstd::arithmetic::power2::{pow2, lemma_pow2_adds, lemma_pow2_strictly_increases, lemma_pow2_pos, lemma2_to64};
use vstd::utf8::{encode_utf8, is_ascii_chars, is_ascii_chars_encode_utf8};
use vstd::arithmetic::div_mod::{
    lemma_fundamental_div_mod, lemma_fundamental_div_mod_converse, lemma_mod_pos_bound,
    lemma_div_denominator, lemma_basic_div,
};
use crate::base::{
    digit, digit_char, digit_pair, digit_value, encode_from, encode_spec, decode_from, decode_spec,
    flush, prepend, encode_tail, ascii_chars,
};

verus! {

/// The `m` bytes of `w`, least significant first.
pub open spec fn le_bytes(w: nat, m: nat) -> Seq<u8>
    decreases m,
{
    if m == 0 {
        seq![]
    } else {
        seq![(w % 256) as u8] + le_bytes(w / 256, (m - 1) as nat)
    }
}

/// Every basE91 digit reads back as its value, and is ASCII.
pub proof fn lemma_digit_roundtrip(v: int)
    requires
        0 <= v < 91,
    ensures
        digit_value(digit_char(v)) == Some(v as u8),
        digit_char(v) < 128,
{
}

proof fn lemma_div_add(x: int, y: int, d: int)
    requires
        d > 0,
        x >= 0,
        y >= 0,
    ensures
        (x + y * d) / d == x / d + y,
        (x + y * d) % d == x % d,
{
    lemma_fundamental_div_mod(x, d);
    lemma_mod_pos_bound(x, d);
    assert(x + y * d == (x / d + y) * d + x % d) by (nonlinear_arith)
        requires
            x == d * (x / d) + x % d,
    ;
    lemma_fundamental_div_mod_converse(x + y * d, d, x / d + y, x % d);
}

proof fn lemma_div_lt(x: int, d: int, q: int)
    requires
        d > 0,
        0 <= x < q * d,
    ensures
        x / d < q,
        x / d >= 0,
{
    lemma_fundamental_div_mod(x, d);
    lemma_mod_pos_bound(x, d);
    assert(x / d < q) by (nonlinear_arith)
        requires
            x == d * (x / d) + x % d,
            0 <= x % d,
            x < q * d,
            d > 0,
    ;
    assert(x / d >= 0) by (nonlinear_arith)
        requires
            x == d * (x / d) + x % d,
            x % d < d,
            x >= 0,
            d > 0,
    ;
}

proof fn lemma_sum_lt(lo: int, hi: int, plo: int, phi: int)
    requires
        0 <= lo < plo,
        0 <= hi < phi,
    ensures
        lo + hi * plo < phi * plo,
{
    assert(lo + hi * plo < phi * plo) by (nonlinear_arith)
        requires
            0 <= lo < plo,
            0 <= hi < phi,
    ;
}

/// Bytes beyond the first `m` do not change the first `m` bytes.
proof fn lemma_le_bytes_high(x: nat, y: nat, m: nat)
    ensures
        le_bytes(x + y * pow2(8 * m), m) == le_bytes(x, m),
    decreases m,
{
    if m > 0 {
        let q = pow2((8 * (m - 1)) as nat);
        lemma2_to64();
        lemma_pow2_adds(8, (8 * (m - 1)) as nat);
        assert(pow2(8 * m) == 256 * q);
        assert(y * pow2(8 * m) == (y * q) * 256) by (nonlinear_arith)
            requires
                pow2(8 * m) == 256 * q,
        ;
        lemma_div_add(x as int, (y * q) as int, 256);
        lemma_le_bytes_high(x / 256, y, (m - 1) as nat);
        assert((x + y * pow2(8 * m)) / 256 == x / 256 + y * q);
        assert((x / 256 + y * q) as nat == (x / 256) as nat + y * pow2((8 * (m - 1)) as nat));
    }
}

/// The first `m1 + m2` bytes are the first `m1` bytes followed by the `m2`
/// bytes after them.
proof fn lemma_le_bytes_split(x: nat, m1: nat, m2: nat)
    ensures
        le_bytes(x, m1 + m2) == le_bytes(x, m1) + le_bytes(x / pow2(8 * m1), m2),
    decreases m1,
{
    lemma2_to64();
    if m1 == 0 {
        assert(le_bytes(x, m1) =~= seq![]);
        assert(x / pow2(0) == x);
        assert(le_bytes(x, m1 + m2) =~= le_bytes(x, m1) + le_bytes(x / pow2(8 * m1), m2));
    } else {
        let q = pow2((8 * (m1 - 1)) as nat);
        lemma_le_bytes_split(x / 256, (m1 - 1) as nat, m2);
        lemma_pow2_adds(8, (8 * (m1 - 1)) as nat);
        lemma_pow2_pos((8 * (m1 - 1)) as nat);
        lemma_div_denominator(x as int, 256, q as int);
        assert(pow2(8 * m1) == 256 * q);
        assert(((m1 + m2) - 1) as nat == ((m1 - 1) + m2) as nat);
        assert(le_bytes(x, m1 + m2) =~= le_bytes(x, m1) + le_bytes(x / pow2(8 * m1), m2));
    }
}

/// Adding a byte above the first `k` bytes of a value appends it.
proof fn lemma_le_bytes_push(v: nat, k: nat, x0: nat)
    requires
        v < pow2(8 * k),
        x0 < 256,
    ensures
        le_bytes(v + x0 * pow2(8 * k), k + 1) == le_bytes(v, k).push(x0 as u8),
{
    let p = pow2(8 * k);
    lemma_pow2_pos(8 * k);
    lemma_le_bytes_split(v + x0 * p, k, 1);
    lemma_le_bytes_high(v, x0, k);
    lemma_div_add(v as int, x0 as int, p as int);
    lemma_basic_div(v as int, p as int);
    assert(le_bytes(x0 / 256, 0) =~= seq![]);
    assert(le_bytes(x0, 1) =~= seq![x0 as u8]);
    assert(le_bytes(v + x0 * p, k + 1) =~= le_bytes(v, k).push(x0 as u8));
}

/// Flushing writes the whole bytes of the buffer and keeps the rest.
proof fn lemma_flush(b: nat, n: nat)
    ensures
        flush(b, n) == (le_bytes(b, n / 8), b / pow2(8 * (n / 8)), n % 8),
    decreases n,
{
    lemma2_to64();
    if n > 7 {
        lemma_flush(b / 256, (n - 8) as nat);
        let j = ((n - 8) / 8) as nat;
        assert(n / 8 == j + 1);
        let q = pow2(8 * j);
        lemma_pow2_adds(8, 8 * j);
        lemma_pow2_pos(8 * j);
        lemma_div_denominator(b as int, 256, q as int);
        assert(pow2(8 * (j + 1)) == 256 * q);
        assert(flush(b, n).0 =~= le_bytes(b, n / 8));
    } else {
        assert(b / pow2(0) == b);
    }
}

/// Decoding a pair of digits followed by more digits: the value is added
/// to the buffer, whole bytes are flushed, and decoding goes on.
proof fn lemma_decode_pair(v: nat, s2: Seq<u8>, bd: nat, nd: nat)
    requires
        v < 8281,
    ensures
        ({
            let w: nat = if v % 8192 > 88 { 13 } else { 14 };
            let f = flush(bd + v * pow2(nd), nd + w);
            decode_from(digit_pair(v as int) + s2, None, bd, nd) == prepend(
                f.0,
                decode_from(s2, None, f.1, f.2),
            )
        }),
{
    let s = digit_pair(v as int) + s2;
    lemma_digit_roundtrip(v as int % 91);
    lemma_digit_roundtrip(v as int / 91);
    assert(v % 91 + (v / 91) * 91 == v);
    let w: nat = if v % 8192 > 88 { 13 } else { 14 };
    let f = flush(bd + v * pow2(nd), nd + w);
    let s1 = s.drop_first();
    assert(s[0] == digit(v as int));
    assert(s1[0] == digit(v as int / 91));
    assert(s1.drop_first() =~= s2);
    assert(digit_value(s[0]) == Some((v % 91) as u8));
    assert(decode_from(s, None, bd, nd) == decode_from(s1, Some((v % 91) as nat), bd, nd));
    assert(digit_value(s1[0]) == Some((v / 91) as u8));
    assert(decode_from(s1, Some((v % 91) as nat), bd, nd) == prepend(
        f.0,
        decode_from(s2, None, f.1, f.2),
    ));
}

/// Decoding the digits written for what is left in the buffer gives back
/// the bytes held by the two buffers.
#[verifier::rlimit(40)]
proof fn lemma_roundtrip_tail(b: nat, n: nat, bd: nat, nd: nat)
    requires
        b < pow2(n),
        n <= 13,
        bd < pow2(nd),
        nd <= 7,
        (nd + n) % 8 == 0,
    ensures
        decode_from(encode_from(Seq::<u8>::empty(), b, n), None, bd, nd) == Some(
            le_bytes(bd + b * pow2(nd), (nd + n) / 8),
        ),
{
    let rest = Seq::<u8>::empty();
    lemma2_to64();
    lemma_pow2_pos(n);
    lemma_pow2_pos(nd);
    let k = ((nd + n) / 8) as nat;
    let pnd = pow2(nd);
    let v0 = bd + b * pnd;
    if n == 0 {
        assert(nd == 0);
        assert(bd == 0);
        assert(le_bytes(v0, k) =~= seq![]);
        assert(encode_from(rest, b, n) =~= seq![]);
        
    } else if n > 7 || b > 90 {
        assert(b < 8192) by {
            if n < 13 {
                lemma_pow2_strictly_increases(n, 13);
            }
        }
        if n <= 7 {
            if n < 7 {
                lemma_pow2_strictly_increases(n, 6);
                assert(false);
            }
        }
        let s = encode_from(rest, b, n);
        assert(s =~= digit_pair(b as int));
        assert(s =~= digit_pair(b as int) + Seq::<u8>::empty());
        lemma_decode_pair(b, Seq::<u8>::empty(), bd, nd);
        let w: nat = if b % 8192 > 88 { 13 } else { 14 };
        let bp = bd + b * pnd;
        let np = nd + w;
        lemma_flush(bp, np);
        assert(np / 8 == k);
        assert(decode_from(Seq::<u8>::empty(), None, flush(bp, np).1, flush(bp, np).2) == Some(Seq::<u8>::empty()));
        assert(flush(bp, np).0 + Seq::<u8>::empty() =~= flush(bp, np).0);
        assert(decode_from(digit_pair(b as int) + Seq::<u8>::empty(), None, bd, nd) == Some(flush(bp, np).0));
        assert(flush(bp, np).0 == le_bytes(bp, np / 8));
        assert(bp == v0);
        assert(np / 8 == k);
        assert(s == digit_pair(b as int) + Seq::<u8>::empty());
        assert(decode_from(s, None, bd, nd) == Some(le_bytes(bp, np / 8)));
        assert(le_bytes(bp, np / 8) == le_bytes(v0, k));
    } else {
        let s = encode_from(rest, b, n);
        assert(s =~= seq![digit(b as int)]);
        lemma_digit_roundtrip(b as int);
        assert(k == 1);
        assert(s.drop_first() =~= seq![]);
        assert(digit_value(s[0]) == Some(b as u8));
        assert(decode_from(s, None, bd, nd) == decode_from(s.drop_first(), Some(b), bd, nd));
        assert(decode_from(s.drop_first(), Some(b), bd, nd) == Some(seq![((bd + b * pow2(nd)) % 256) as u8]));
        assert(le_bytes(v0 / 256, 0) =~= seq![]);
        assert(le_bytes(v0, 1) =~= seq![(v0 % 256) as u8]);
        assert(decode_from(s, None, bd, nd) == Some(le_bytes(v0, k)));
    }
}

/// Decoding what was encoded from a buffer state gives back the bytes held
/// by the two buffers followed by the rest of the input.
#[verifier::rlimit(60)]
proof fn lemma_roundtrip_from(rest: Seq<u8>, b: nat, n: nat, bd: nat, nd: nat)
    requires
        b < pow2(n),
        n <= 13,
        bd < pow2(nd),
        nd <= 7,
        (nd + n) % 8 == 0,
    ensures
        decode_from(encode_from(rest, b, n), None, bd, nd) == Some(
            le_bytes(bd + b * pow2(nd), (nd + n) / 8) + rest,
        ),
    decreases rest.len(),
{
    lemma2_to64();
    lemma_pow2_pos(n);
    lemma_pow2_pos(nd);
    let k = ((nd + n) / 8) as nat;
    assert(8 * k == nd + n);
    let pnd = pow2(nd);
    let v0 = bd + b * pnd;
    lemma_pow2_adds(nd, n);
    lemma_sum_lt(bd as int, b as int, pnd as int, pow2(n) as int);
    assert(v0 < pow2(8 * k)) by (nonlinear_arith)
        requires
            v0 < pow2(n) * pnd,
            pow2(nd + n) == pnd * pow2(n),
            8 * k == nd + n,
    ;
    if rest.len() == 0 {
        lemma_roundtrip_tail(b, n, bd, nd);
        assert(le_bytes(v0, k) + rest =~= le_bytes(v0, k));
    } else {
        let x0 = rest[0];
        let tail = rest.drop_first();
        let pn = pow2(n);
        let b1 = b + (x0 as nat) * pn;
        let n1 = n + 8;
        lemma_pow2_adds(n, 8);
        lemma_sum_lt(b as int, x0 as int, pn as int, 256);
        assert(b1 < pow2(n1));
        // The value held by both buffers after reading `x0`.
        let w1 = bd + b1 * pnd;
        assert(w1 == v0 + (x0 as nat) * pow2(8 * k)) by (nonlinear_arith)
            requires
                w1 == bd + b1 * pnd,
                b1 == b + (x0 as nat) * pn,
                v0 == bd + b * pnd,
                pow2(8 * k) == pnd * pn,
        ;
        lemma_le_bytes_push(v0, k, x0 as nat);
        assert(le_bytes(w1, k + 1) + tail =~= le_bytes(v0, k) + rest);
        if n1 > 13 {
            let w: nat = if b1 % 8192 > 88 { 13 } else { 14 };
            let pw = pow2(w);
            let v = b1 % pw;
            let b2 = b1 / pw;
            let n2 = (n1 - w) as nat;
            lemma_pow2_adds(n2, w);
            lemma_fundamental_div_mod(b1 as int, pw as int);
            lemma_mod_pos_bound(b1 as int, pw as int);
            lemma_div_lt(b1 as int, pw as int, pow2(n2) as int);
            assert(b1 == v + b2 * pw);
            assert(v < 8281) by {
                if w == 14 {
                    assert(v % 8192 == b1 % 8192) by (nonlinear_arith)
                        requires
                            v == b1 % 16384,
                    ;
                }
            }
            let s2 = encode_from(tail, b2, n2);
            let s = encode_from(rest, b, n);
            assert(s =~= digit_pair(v as int) + s2);
            assert((v % 8192 > 88) == (w == 13)) by {
                if w == 14 {
                    assert(v % 8192 == b1 % 8192) by (nonlinear_arith)
                        requires
                            v == b1 % 16384,
                    ;
                }
            }
            let bp = bd + v * pnd;
            let np = nd + w;
            lemma_sum_lt(bd as int, v as int, pnd as int, pw as int);
            lemma_pow2_adds(nd, w);
            lemma_flush(bp, np);
            let j = np / 8;
            let bd2 = bp / pow2(8 * j);
            let nd2 = np % 8;
            lemma_pow2_adds(8 * j, nd2);
            lemma_pow2_pos(8 * j);
            lemma_pow2_pos(nd2);
            assert(8 * j + nd2 == np);
            assert(bp < pow2(8 * j) * pow2(nd2)) by (nonlinear_arith)
                requires
                    bp < pw * pnd,
                    pow2(nd + w) == pnd * pw,
                    pow2(8 * j + nd2) == pow2(8 * j) * pow2(nd2),
                    8 * j + nd2 == nd + w,
            ;
            lemma_div_lt(bp as int, pow2(8 * j) as int, pow2(nd2) as int);
            assert((nd2 + n2) % 8 == 0);
            lemma_roundtrip_from(tail, b2, n2, bd2, nd2);
            lemma_decode_pair(v, s2, bd, nd);
            assert(decode_from(s, None, bd, nd) == Some(
                le_bytes(bp, j) + (le_bytes(bd2 + b2 * pow2(nd2), (nd2 + n2) / 8) + tail),
            ));
            // Regroup the value held by both buffers.
            assert(w1 == bp + (b2 * pow2(nd2)) * pow2(8 * j)) by (nonlinear_arith)
                requires
                    w1 == bd + b1 * pnd,
                    b1 == v + b2 * pw,
                    bp == bd + v * pnd,
                    pow2(nd + w) == pnd * pw,
                    pow2(8 * j + nd2) == pow2(8 * j) * pow2(nd2),
                    8 * j + nd2 == nd + w,
            ;
            assert(j <= k + 1);
            lemma_le_bytes_split(w1, j, (k + 1 - j) as nat);
            lemma_le_bytes_high(bp, b2 * pow2(nd2), j);
            lemma_div_add(bp as int, (b2 * pow2(nd2)) as int, pow2(8 * j) as int);
            assert(w1 / pow2(8 * j) == bd2 + b2 * pow2(nd2));
            assert((nd2 + n2) / 8 == k + 1 - j);
            assert(le_bytes(bp, j) + (le_bytes(bd2 + b2 * pow2(nd2), (nd2 + n2) / 8) + tail)
                =~= le_bytes(w1, k + 1) + tail);
        } else {
            lemma_roundtrip_from(tail, b1, n1, bd, nd);
            assert(encode_from(rest, b, n) == encode_from(tail, b1, n1));
            assert((nd + n1) / 8 == k + 1);
        }
    }
}

/// Decoding the basE91 digits of any bytes gives back those bytes.
pub proof fn lemma_decode_encode(input: Seq<u8>)
    ensures
        decode_spec(encode_spec(input)) == Some(input),
{
    lemma2_to64();
    lemma_roundtrip_from(input, 0, 0, 0, 0);
    assert(le_bytes(0, 0) + input =~= input);
}


/// Whether every byte of `s` is below 128.
pub open spec fn all_ascii(s: Seq<u8>) -> bool {
    forall|i: int| 0 <= i < s.len() ==> #[trigger] s[i] < 128
}

proof fn lemma_encode_from_ascii(input: Seq<u8>, b: nat, n: nat)
    ensures
        all_ascii(encode_from(input, b, n)),
    decreases input.len(),
{
    let s = encode_from(input, b, n);
    if input.len() == 0 {
        let t = encode_tail(b, n);
        lemma_digit_roundtrip(b as int % 91);
        lemma_digit_roundtrip((b as int / 91) % 91);
        assert(all_ascii(t));
    } else {
        let b1 = b + (input[0] as nat) * pow2(n);
        let n1 = n + 8;
        if n1 > 13 {
            let v: nat = if b1 % 8192 > 88 { b1 % 8192 } else { b1 % 16384 };
            let b2: nat = if b1 % 8192 > 88 { b1 / 8192 } else { b1 / 16384 };
            let n2: nat = if b1 % 8192 > 88 { (n1 - 13) as nat } else { (n1 - 14) as nat };
            lemma_encode_from_ascii(input.drop_first(), b2, n2);
            lemma_digit_roundtrip(v as int % 91);
            lemma_digit_roundtrip((v as int / 91) % 91);
            assert(s == digit_pair(v as int) + encode_from(input.drop_first(), b2, n2));
            assert forall|i: int| 0 <= i < s.len() implies #[trigger] s[i] < 128 by {
                if i >= 2 {
                    assert(s[i] == encode_from(input.drop_first(), b2, n2)[i - 2]);
                }
            }
        } else {
            lemma_encode_from_ascii(input.drop_first(), b1, n1);
        }
    }
}

/// The characters of ASCII bytes are encoded in UTF-8 as those bytes.
pub proof fn lemma_ascii_utf8(e: Seq<u8>)
    requires
        all_ascii(e),
    ensures
        is_ascii_chars(ascii_chars(e)),
        encode_utf8(ascii_chars(e)) == e,
{
    let c = ascii_chars(e);
    assert forall|i: int| 0 <= i < c.len() implies '\0' <= #[trigger] c[i] <= '\u{7f}' by {
        assert(e[i] < 128);
    }
    is_ascii_chars_encode_utf8(c);
    assert forall|i: int| 0 <= i < e.len() implies encode_utf8(c)[i] == e[i] by {
        assert(c[i] as u8 == encode_utf8(c)[i]);
        assert(c[i] == e[i] as char);
        assert((e[i] as char) as u8 == e[i]);
    }
    assert(encode_utf8(c) =~= e);
}

/// The UTF-8 bytes of the basE91 text of `input` are its basE91 digits.
pub proof fn lemma_text_bytes(input: Seq<u8>)
    ensures
        encode_utf8(ascii_chars(encode_spec(input))) == encode_spec(input),
{
    lemma_encode_from_ascii(input, 0, 0);
    lemma_ascii_utf8(encode_spec(input));
}

/// Decoding the UTF-8 bytes of the basE91 text of any bytes gives back those
/// bytes.
pub proof fn lemma_decode_text(input: Seq<u8>)
    ensures
        decode_spec(encode_utf8(ascii_chars(encode_spec(input)))) == Some(input),
{
    lemma_text_bytes(input);
    lemma_decode_encode(input);
}

} // verus!
