//! basE91 text encoding of bytes.
//!
//! Bytes are read least significant bit first into a bit buffer; whenever
//! more than 13 bits are buffered, a 13-bit value (if its value exceeds 88)
//! or else a 14-bit value is taken from the bottom of the buffer and written
//! as two base-91 digits, low digit first.
use vstd::prelude::*;
use vstd::arithmetic::power2::{pow2, lemma_pow2_adds, lemma_pow2_strictly_increases, lemma2_to64};

use crate::bytes::opt_bytes;
use crate::text::push_char;
use vstd::string::StringSliceAdditionalSpecFns;

verus! {

/// The digit for value `v` (0 <= v < 91): `A`-`Z`, `a`-`z`, `0`-`9`, then
/// the symbols ``!#$%&()*+,./:;<=>?@[]^_`{|}~"``.
pub open spec fn digit_char(v: int) -> u8 {
    if v < 26 {
        (65 + v) as u8
    } else if v < 52 {
        (71 + v) as u8
    } else if v < 62 {
        (v - 4) as u8
    } else if v == 62 {
        33u8
    } else if v == 63 {
        35u8
    } else if v == 64 {
        36u8
    } else if v == 65 {
        37u8
    } else if v == 66 {
        38u8
    } else if v == 67 {
        40u8
    } else if v == 68 {
        41u8
    } else if v == 69 {
        42u8
    } else if v == 70 {
        43u8
    } else if v == 71 {
        44u8
    } else if v == 72 {
        46u8
    } else if v == 73 {
        47u8
    } else if v == 74 {
        58u8
    } else if v == 75 {
        59u8
    } else if v == 76 {
        60u8
    } else if v == 77 {
        61u8
    } else if v == 78 {
        62u8
    } else if v == 79 {
        63u8
    } else if v == 80 {
        64u8
    } else if v == 81 {
        91u8
    } else if v == 82 {
        93u8
    } else if v == 83 {
        94u8
    } else if v == 84 {
        95u8
    } else if v == 85 {
        96u8
    } else if v == 86 {
        123u8
    } else if v == 87 {
        124u8
    } else if v == 88 {
        125u8
    } else if v == 89 {
        126u8
    } else if v == 90 {
        34u8
    } else {
        0u8
    }
}

/// The value of digit `c`, if `c` is one.
pub open spec fn digit_value(c: u8) -> Option<u8> {
    if 65 <= c <= 90 {
        Some((c - 65) as u8)
    } else if 97 <= c <= 122 {
        Some((c - 71) as u8)
    } else if 48 <= c <= 57 {
        Some((c + 4) as u8)
    } else {
        match c {
            33u8 => Some(62u8),
            35u8 => Some(63u8),
            36u8 => Some(64u8),
            37u8 => Some(65u8),
            38u8 => Some(66u8),
            40u8 => Some(67u8),
            41u8 => Some(68u8),
            42u8 => Some(69u8),
            43u8 => Some(70u8),
            44u8 => Some(71u8),
            46u8 => Some(72u8),
            47u8 => Some(73u8),
            58u8 => Some(74u8),
            59u8 => Some(75u8),
            60u8 => Some(76u8),
            61u8 => Some(77u8),
            62u8 => Some(78u8),
            63u8 => Some(79u8),
            64u8 => Some(80u8),
            91u8 => Some(81u8),
            93u8 => Some(82u8),
            94u8 => Some(83u8),
            95u8 => Some(84u8),
            96u8 => Some(85u8),
            123u8 => Some(86u8),
            124u8 => Some(87u8),
            125u8 => Some(88u8),
            126u8 => Some(89u8),
            34u8 => Some(90u8),
            _ => None,
        }
    }
}

/// The basE91 alphabet in digit order:
/// ``ABCDEFGHIJKLMNOPQRSTUVWXYZabcdefghijklmnopqrstuvwxyz0123456789!#$%&()*+,./:;<=>?@[]^_`{|}~"``.
pub open spec fn base91_alphabet() -> Seq<char> {
    seq![
        'A', 'B', 'C', 'D', 'E', 'F', 'G', 'H', 'I', 'J', 'K', 'L', 'M',
        'N', 'O', 'P', 'Q', 'R', 'S', 'T', 'U', 'V', 'W', 'X', 'Y', 'Z',
        'a', 'b', 'c', 'd', 'e', 'f', 'g', 'h', 'i', 'j', 'k', 'l', 'm',
        'n', 'o', 'p', 'q', 'r', 's', 't', 'u', 'v', 'w', 'x', 'y', 'z',
        '0', '1', '2', '3', '4', '5', '6', '7', '8', '9', '!', '#', '$',
        '%', '&', '(', ')', '*', '+', ',', '.', '/', ':', ';', '<', '=',
        '>', '?', '@', '[', ']', '^', '_', '`', '{', '|', '}', '~', '"',
    ]
}

/// The digits are the basE91 alphabet: value `v` is written as the `v`-th
/// character of the alphabet, each character of the alphabet reads back as
/// its place, and no other byte reads as a digit.
#[verifier::rlimit(60)]
pub proof fn base91_digit_table()
    ensures
        base91_alphabet().len() == 91,
        forall|v: int| 0 <= v < 91 ==> #[trigger] digit_char(v) == base91_alphabet()[v] as u8,
        forall|v: int| 0 <= v < 91 ==> #[trigger] digit_value(base91_alphabet()[v] as u8) == Some(v as u8),
        forall|c: u8|
            #[trigger] digit_value(c) matches Some(v) ==> v < 91 && base91_alphabet()[v as int] as u8 == c,
{
    assert(digit_char(0) == base91_alphabet()[0] as u8);
    assert(digit_char(1) == base91_alphabet()[1] as u8);
    assert(digit_char(2) == base91_alphabet()[2] as u8);
    assert(digit_char(3) == base91_alphabet()[3] as u8);
    assert(digit_char(4) == base91_alphabet()[4] as u8);
    assert(digit_char(5) == base91_alphabet()[5] as u8);
    assert(digit_char(6) == base91_alphabet()[6] as u8);
    assert(digit_char(7) == base91_alphabet()[7] as u8);
    assert(digit_char(8) == base91_alphabet()[8] as u8);
    assert(digit_char(9) == base91_alphabet()[9] as u8);
    assert(digit_char(10) == base91_alphabet()[10] as u8);
    assert(digit_char(11) == base91_alphabet()[11] as u8);
    assert(digit_char(12) == base91_alphabet()[12] as u8);
    assert(digit_char(13) == base91_alphabet()[13] as u8);
    assert(digit_char(14) == base91_alphabet()[14] as u8);
    assert(digit_char(15) == base91_alphabet()[15] as u8);
    assert(digit_char(16) == base91_alphabet()[16] as u8);
    assert(digit_char(17) == base91_alphabet()[17] as u8);
    assert(digit_char(18) == base91_alphabet()[18] as u8);
    assert(digit_char(19) == base91_alphabet()[19] as u8);
    assert(digit_char(20) == base91_alphabet()[20] as u8);
    assert(digit_char(21) == base91_alphabet()[21] as u8);
    assert(digit_char(22) == base91_alphabet()[22] as u8);
    assert(digit_char(23) == base91_alphabet()[23] as u8);
    assert(digit_char(24) == base91_alphabet()[24] as u8);
    assert(digit_char(25) == base91_alphabet()[25] as u8);
    assert(digit_char(26) == base91_alphabet()[26] as u8);
    assert(digit_char(27) == base91_alphabet()[27] as u8);
    assert(digit_char(28) == base91_alphabet()[28] as u8);
    assert(digit_char(29) == base91_alphabet()[29] as u8);
    assert(digit_char(30) == base91_alphabet()[30] as u8);
    assert(digit_char(31) == base91_alphabet()[31] as u8);
    assert(digit_char(32) == base91_alphabet()[32] as u8);
    assert(digit_char(33) == base91_alphabet()[33] as u8);
    assert(digit_char(34) == base91_alphabet()[34] as u8);
    assert(digit_char(35) == base91_alphabet()[35] as u8);
    assert(digit_char(36) == base91_alphabet()[36] as u8);
    assert(digit_char(37) == base91_alphabet()[37] as u8);
    assert(digit_char(38) == base91_alphabet()[38] as u8);
    assert(digit_char(39) == base91_alphabet()[39] as u8);
    assert(digit_char(40) == base91_alphabet()[40] as u8);
    assert(digit_char(41) == base91_alphabet()[41] as u8);
    assert(digit_char(42) == base91_alphabet()[42] as u8);
    assert(digit_char(43) == base91_alphabet()[43] as u8);
    assert(digit_char(44) == base91_alphabet()[44] as u8);
    assert(digit_char(45) == base91_alphabet()[45] as u8);
    assert(digit_char(46) == base91_alphabet()[46] as u8);
    assert(digit_char(47) == base91_alphabet()[47] as u8);
    assert(digit_char(48) == base91_alphabet()[48] as u8);
    assert(digit_char(49) == base91_alphabet()[49] as u8);
    assert(digit_char(50) == base91_alphabet()[50] as u8);
    assert(digit_char(51) == base91_alphabet()[51] as u8);
    assert(digit_char(52) == base91_alphabet()[52] as u8);
    assert(digit_char(53) == base91_alphabet()[53] as u8);
    assert(digit_char(54) == base91_alphabet()[54] as u8);
    assert(digit_char(55) == base91_alphabet()[55] as u8);
    assert(digit_char(56) == base91_alphabet()[56] as u8);
    assert(digit_char(57) == base91_alphabet()[57] as u8);
    assert(digit_char(58) == base91_alphabet()[58] as u8);
    assert(digit_char(59) == base91_alphabet()[59] as u8);
    assert(digit_char(60) == base91_alphabet()[60] as u8);
    assert(digit_char(61) == base91_alphabet()[61] as u8);
    assert(digit_char(62) == base91_alphabet()[62] as u8);
    assert(digit_char(63) == base91_alphabet()[63] as u8);
    assert(digit_char(64) == base91_alphabet()[64] as u8);
    assert(digit_char(65) == base91_alphabet()[65] as u8);
    assert(digit_char(66) == base91_alphabet()[66] as u8);
    assert(digit_char(67) == base91_alphabet()[67] as u8);
    assert(digit_char(68) == base91_alphabet()[68] as u8);
    assert(digit_char(69) == base91_alphabet()[69] as u8);
    assert(digit_char(70) == base91_alphabet()[70] as u8);
    assert(digit_char(71) == base91_alphabet()[71] as u8);
    assert(digit_char(72) == base91_alphabet()[72] as u8);
    assert(digit_char(73) == base91_alphabet()[73] as u8);
    assert(digit_char(74) == base91_alphabet()[74] as u8);
    assert(digit_char(75) == base91_alphabet()[75] as u8);
    assert(digit_char(76) == base91_alphabet()[76] as u8);
    assert(digit_char(77) == base91_alphabet()[77] as u8);
    assert(digit_char(78) == base91_alphabet()[78] as u8);
    assert(digit_char(79) == base91_alphabet()[79] as u8);
    assert(digit_char(80) == base91_alphabet()[80] as u8);
    assert(digit_char(81) == base91_alphabet()[81] as u8);
    assert(digit_char(82) == base91_alphabet()[82] as u8);
    assert(digit_char(83) == base91_alphabet()[83] as u8);
    assert(digit_char(84) == base91_alphabet()[84] as u8);
    assert(digit_char(85) == base91_alphabet()[85] as u8);
    assert(digit_char(86) == base91_alphabet()[86] as u8);
    assert(digit_char(87) == base91_alphabet()[87] as u8);
    assert(digit_char(88) == base91_alphabet()[88] as u8);
    assert(digit_char(89) == base91_alphabet()[89] as u8);
    assert(digit_char(90) == base91_alphabet()[90] as u8);
    assert forall|v: int| 0 <= v < 91 implies #[trigger] digit_char(v) == base91_alphabet()[v] as u8 by {
        assert(v == 0 || v == 1 || v == 2 || v == 3 || v == 4 || v == 5 || v == 6 || v == 7 || v == 8 || v == 9 || v == 10 || v == 11 || v == 12 || v == 13 || v == 14 || v == 15 || v == 16 || v == 17 || v == 18 || v == 19 || v == 20 || v == 21 || v == 22 || v == 23 || v == 24 || v == 25 || v == 26 || v == 27 || v == 28 || v == 29 || v == 30 || v == 31 || v == 32 || v == 33 || v == 34 || v == 35 || v == 36 || v == 37 || v == 38 || v == 39 || v == 40 || v == 41 || v == 42 || v == 43 || v == 44 || v == 45 || v == 46 || v == 47 || v == 48 || v == 49 || v == 50 || v == 51 || v == 52 || v == 53 || v == 54 || v == 55 || v == 56 || v == 57 || v == 58 || v == 59 || v == 60 || v == 61 || v == 62 || v == 63 || v == 64 || v == 65 || v == 66 || v == 67 || v == 68 || v == 69 || v == 70 || v == 71 || v == 72 || v == 73 || v == 74 || v == 75 || v == 76 || v == 77 || v == 78 || v == 79 || v == 80 || v == 81 || v == 82 || v == 83 || v == 84 || v == 85 || v == 86 || v == 87 || v == 88 || v == 89 || v == 90);
    }
    assert forall|v: int| 0 <= v < 91 implies #[trigger] digit_value(base91_alphabet()[v] as u8) == Some(
        v as u8,
    ) by {
        assert(digit_char(v) == base91_alphabet()[v] as u8);
        assert(digit_value(digit_char(v)) == Some(v as u8));
    }
    assert forall|c: u8| #[trigger] digit_value(c) is Some implies digit_value(c)->0 < 91 && base91_alphabet()[
        digit_value(c)->0 as int] as u8 == c by {
        let v = digit_value(c)->0;
        assert(v < 91 && digit_char(v as int) == c);
        assert(digit_char(v as int) == base91_alphabet()[v as int] as u8);
    }
}

/// The digit that stands for `v` (taken modulo 91).
pub open spec fn digit(v: int) -> u8 {
    digit_char(v % 91)
}

/// The two digits of a value below 91 * 91, low digit first.
pub open spec fn digit_pair(v: int) -> Seq<u8> {
    seq![digit(v), digit(v / 91)]
}

/// What is written for the bits left in the buffer (`n` bits of value `b`)
/// once the input is consumed.
pub open spec fn encode_tail(b: nat, n: nat) -> Seq<u8> {
    if n == 0 {
        seq![]
    } else if n > 7 || b > 90 {
        digit_pair(b as int)
    } else {
        seq![digit(b as int)]
    }
}

/// The digits written for `input`, starting from a buffer holding `n` bits of
/// value `b`.
pub open spec fn encode_from(input: Seq<u8>, b: nat, n: nat) -> Seq<u8>
    decreases input.len(),
{
    if input.len() == 0 {
        encode_tail(b, n)
    } else {
        let b1 = b + (input[0] as nat) * pow2(n);
        let n1 = n + 8;
        if n1 > 13 {
            if b1 % 8192 > 88 {
                digit_pair((b1 % 8192) as int) + encode_from(input.drop_first(), b1 / 8192, (n1 - 13) as nat)
            } else {
                digit_pair((b1 % 16384) as int) + encode_from(input.drop_first(), b1 / 16384, (n1 - 14) as nat)
            }
        } else {
            encode_from(input.drop_first(), b1, n1)
        }
    }
}

/// The basE91 digits of `input`.
pub open spec fn encode_spec(input: Seq<u8>) -> Seq<u8> {
    encode_from(input, 0, 0)
}

/// The bytes flushed from a buffer of `n` bits of value `b` after a value
/// was added: one byte at a time while more than 7 bits remain, with the
/// buffer left afterwards.
pub open spec fn flush(b: nat, n: nat) -> (Seq<u8>, nat, nat)
    decreases n,
{
    if n > 7 {
        let rest = flush(b / 256, (n - 8) as nat);
        (seq![(b % 256) as u8] + rest.0, rest.1, rest.2)
    } else {
        (seq![], b, n)
    }
}

/// The bytes that the digits `s` stand for, starting from a buffer of `n`
/// bits of value `b` and a pending low digit `low` (if any); `None` when a
/// character of `s` is not a digit.
pub open spec fn decode_from(s: Seq<u8>, low: Option<nat>, b: nat, n: nat) -> Option<Seq<u8>>
    decreases s.len(),
{
    if s.len() == 0 {
        match low {
            None => Some(seq![]),
            Some(v) => Some(seq![((b + v * pow2(n)) % 256) as u8]),
        }
    } else {
        match digit_value(s[0]) {
            None => None,
            Some(d) => match low {
                None => decode_from(s.drop_first(), Some(d as nat), b, n),
                Some(v) => {
                    let val = v + (d as nat) * 91;
                    let b1 = b + val * pow2(n);
                    let n1 = n + if val % 8192 > 88 { 13nat } else { 14nat };
                    let f = flush(b1, n1);
                    match decode_from(s.drop_first(), None, f.1, f.2) {
                        None => None,
                        Some(rest) => Some(f.0 + rest),
                    }
                },
            },
        }
    }
}

/// The bytes that the basE91 digits `s` stand for.
pub open spec fn decode_spec(s: Seq<u8>) -> Option<Seq<u8>> {
    decode_from(s, None, 0, 0)
}

/// The characters of an ASCII byte string.
pub open spec fn ascii_chars(s: Seq<u8>) -> Seq<char> {
    s.map_values(|c: u8| c as char)
}

fn digit_exec(v: u32) -> (c: u8)
    requires
        v < 91,
    ensures
        c == digit(v as int),
{
    if v < 26 {
        (65 + v) as u8
    } else if v < 52 {
        (71 + v) as u8
    } else if v < 62 {
        (v - 4) as u8
    } else {
        match v {
            62u32 => 33u8,
            63u32 => 35u8,
            64u32 => 36u8,
            65u32 => 37u8,
            66u32 => 38u8,
            67u32 => 40u8,
            68u32 => 41u8,
            69u32 => 42u8,
            70u32 => 43u8,
            71u32 => 44u8,
            72u32 => 46u8,
            73u32 => 47u8,
            74u32 => 58u8,
            75u32 => 59u8,
            76u32 => 60u8,
            77u32 => 61u8,
            78u32 => 62u8,
            79u32 => 63u8,
            80u32 => 64u8,
            81u32 => 91u8,
            82u32 => 93u8,
            83u32 => 94u8,
            84u32 => 95u8,
            85u32 => 96u8,
            86u32 => 123u8,
            87u32 => 124u8,
            88u32 => 125u8,
            89u32 => 126u8,
            90u32 => 34u8,
            _ => 0u8,
        }
    }
}

fn digit_value_exec(c: u8) -> (r: Option<u8>)
    ensures
        r == digit_value(c),
{
    if 65 <= c && c <= 90 {
        Some(c - 65)
    } else if 97 <= c && c <= 122 {
        Some(c - 71)
    } else if 48 <= c && c <= 57 {
        Some(c + 4)
    } else {
        match c {
            33u8 => Some(62u8),
            35u8 => Some(63u8),
            36u8 => Some(64u8),
            37u8 => Some(65u8),
            38u8 => Some(66u8),
            40u8 => Some(67u8),
            41u8 => Some(68u8),
            42u8 => Some(69u8),
            43u8 => Some(70u8),
            44u8 => Some(71u8),
            46u8 => Some(72u8),
            47u8 => Some(73u8),
            58u8 => Some(74u8),
            59u8 => Some(75u8),
            60u8 => Some(76u8),
            61u8 => Some(77u8),
            62u8 => Some(78u8),
            63u8 => Some(79u8),
            64u8 => Some(80u8),
            91u8 => Some(81u8),
            93u8 => Some(82u8),
            94u8 => Some(83u8),
            95u8 => Some(84u8),
            96u8 => Some(85u8),
            123u8 => Some(86u8),
            124u8 => Some(87u8),
            125u8 => Some(88u8),
            126u8 => Some(89u8),
            34u8 => Some(90u8),
            _ => None,
        }
    }
}


proof fn lemma_pow2_small(n: nat)
    requires
        n <= 21,
    ensures
        pow2(n) <= pow2(21),
        pow2(21) == 0x200000,
        pow2(13) == 8192,
        pow2(14) == 16384,
        pow2(8) == 256,
        pow2(7) == 128,
        pow2(0) == 1,
{
    lemma2_to64();
    if n < 21 {
        lemma_pow2_strictly_increases(n, 21);
    }
}

/// Prepends `o` to a decoding result.
pub open spec fn prepend(o: Seq<u8>, r: Option<Seq<u8>>) -> Option<Seq<u8>> {
    match r {
        None => None,
        Some(x) => Some(o + x),
    }
}

/// basE91 text encoding.
pub struct Base91;

impl Base91 {
    /// The basE91 text of `input`.
    #[verifier::rlimit(40)]
    pub fn encode(input: &[u8]) -> (r: String)
        ensures
            r@ == ascii_chars(encode_spec(input@)),
    {
        let mut out: Vec<u8> = Vec::new();
        let mut b: u32 = 0;
        let mut n: u32 = 0;
        let mut p: u32 = 1;
        let mut i: usize = 0;
        proof {
            lemma2_to64();
            assert(input@.skip(0) =~= input@);
        }
        while i < input.len()
            invariant
                i <= input.len(),
                n <= 13,
                p as nat == pow2(n as nat),
                b < p,
                out@ + encode_from(input@.skip(i as int), b as nat, n as nat) == encode_spec(input@),
            decreases input.len() - i,
        {
            let ghost rest = input@.skip(i as int);
            let ghost old_out = out@;
            let byte = input[i];
            proof {
                lemma_pow2_small(n as nat);
                if n < 13 {
                    lemma_pow2_strictly_increases(n as nat, 13);
                }
                lemma_pow2_adds(n as nat, 8);
                assert(b + (byte as nat) * (p as nat) < (p as nat) * 256) by (nonlinear_arith)
                    requires
                        b < p,
                        byte <= 255,
                ;
                assert((byte as nat) * (p as nat) <= 255 * 8192) by (nonlinear_arith)
                    requires
                        p <= 8192,
                        byte <= 255,
                ;
                assert(rest[0] == byte);
                assert(rest.drop_first() =~= input@.skip(i + 1));
            }
            let b1 = b + (byte as u32) * p;
            let n1 = n + 8;
            let p1 = p * 256;
            assert(p1 as nat == pow2(n1 as nat));
            if n1 > 13 {
                proof {
                    lemma_pow2_adds((n1 - 13) as nat, 13);
                    lemma_pow2_adds((n1 - 14) as nat, 14);
                }
                if b1 % 8192 > 88 {
                    let v = b1 % 8192;
                    out.push(digit_exec(v % 91));
                    out.push(digit_exec(v / 91));
                    b = b1 / 8192;
                    n = n1 - 13;
                    p = p1 / 8192;
                    proof {
                        assert(out@ =~= old_out + digit_pair(v as int));
                    }
                } else {
                    let v = b1 % 16384;
                    assert(v % 8192 == b1 % 8192) by (nonlinear_arith)
                        requires
                            v == b1 % 16384,
                    ;
                    out.push(digit_exec(v % 91));
                    out.push(digit_exec(v / 91));
                    b = b1 / 16384;
                    n = n1 - 14;
                    p = p1 / 16384;
                    proof {
                        assert(out@ =~= old_out + digit_pair(v as int));
                    }
                }
            } else {
                b = b1;
                n = n1;
                p = p1;
            }
            i = i + 1;
        }
        let ghost before_tail = out@;
        proof {
            lemma_pow2_small(n as nat);
            if n < 13 {
                lemma_pow2_strictly_increases(n as nat, 13);
            }
        }
        if n > 0 {
            out.push(digit_exec(b % 91));
            if n > 7 || b > 90 {
                out.push(digit_exec(b / 91));
            }
        }
        assert(out@ =~= before_tail + encode_tail(b as nat, n as nat));
        assert(out@ =~= encode_spec(input@));
        let mut r = String::new();
        let mut j: usize = 0;
        while j < out.len()
            invariant
                j <= out.len(),
                r@ =~= ascii_chars(out@.take(j as int)),
            decreases out.len() - j,
        {
            push_char(&mut r, out[j] as char);
            j = j + 1;
            assert(out@.take(j as int) =~= out@.take(j - 1).push(out@[j - 1]));
        }
        assert(out@.take(out.len() as int) =~= out@);
        r
    }

    /// The bytes that the basE91 text `input` stands for; `None` when a
    /// character of `input` is not a basE91 digit.
    pub fn decode(input: &str) -> (r: Option<Vec<u8>>)
        ensures
            opt_bytes(r) == decode_spec(input.spec_bytes()),
    {
        let s = input.as_bytes();
        let mut out: Vec<u8> = Vec::new();
        let mut has_low = false;
        let mut low: u32 = 0;
        let mut b: u32 = 0;
        let mut n: u32 = 0;
        let mut p: u32 = 1;
        let mut i: usize = 0;
        proof {
            lemma2_to64();
            assert(s@.skip(0) =~= s@);
            assert(out@ + seq![] =~= seq![]);
        }
        while i < s.len()
            invariant
                i <= s.len(),
                s@ == input.spec_bytes(),
                n <= 7,
                p as nat == pow2(n as nat),
                b < p,
                low < 91,
                decode_spec(s@) == prepend(
                    out@,
                    decode_from(
                        s@.skip(i as int),
                        if has_low { Some(low as nat) } else { None },
                        b as nat,
                        n as nat,
                    ),
                ),
            decreases s.len() - i,
        {
            let ghost rest = s@.skip(i as int);
            let ghost old_out = out@;
            proof {
                assert(rest[0] == s@[i as int]);
                assert(rest.drop_first() =~= s@.skip(i + 1));
            }
            match digit_value_exec(s[i]) {
                None => {
                    assert(rest.len() > 0);
                    assert(decode_from(rest, if has_low { Some(low as nat) } else { None }, b as nat, n as nat) is None);
                    return None;
                },
                Some(d) => {
                    if !has_low {
                        low = d as u32;
                        has_low = true;
                        assert(d < 91);
                    } else {
                        proof {
                            lemma_pow2_small(n as nat);
                            if n < 7 {
                                lemma_pow2_strictly_increases(n as nat, 7);
                            }
                            assert(d < 91);
                        }
                        let val = low + (d as u32) * 91;
                        assert(val < 8281);
                        proof {
                            assert((val as nat) * (p as nat) <= 8281 * 128) by (nonlinear_arith)
                                requires
                                    val < 8281,
                                    p <= 128,
                            ;
                        }
                        let mut bb = b + val * p;
                        let mut nn: u32;
                        let mut pp: u32;
                        if val % 8192 > 88 {
                            nn = n + 13;
                            pp = p * 8192;
                            proof {
                                lemma_pow2_adds(n as nat, 13);
                                assert(val < 8192);
                                assert(b + (val as nat) * (p as nat) < (p as nat) * 8192) by (nonlinear_arith)
                                    requires
                                        b < p,
                                        val < 8192,
                                ;
                            }
                        } else {
                            nn = n + 14;
                            pp = p * 16384;
                            proof {
                                lemma_pow2_adds(n as nat, 14);
                                assert(b + (val as nat) * (p as nat) < (p as nat) * 16384) by (nonlinear_arith)
                                    requires
                                        b < p,
                                        val < 8281,
                                ;
                            }
                        }
                        let ghost f = flush(bb as nat, nn as nat);
                        let ghost flushed_from = out@;
                        while nn > 7
                            invariant
                                nn <= 21,
                                pp as nat == pow2(nn as nat),
                                bb < pp,
                                out@ + flush(bb as nat, nn as nat).0 == flushed_from + f.0,
                                flush(bb as nat, nn as nat).1 == f.1,
                                flush(bb as nat, nn as nat).2 == f.2,
                            decreases nn,
                        {
                            let ghost ob = out@;
                            let ghost obb = bb;
                            proof {
                                lemma_pow2_adds((nn - 8) as nat, 8);
                                lemma_pow2_small(nn as nat);
                            }
                            out.push((bb % 256) as u8);
                            bb = bb / 256;
                            nn = nn - 8;
                            pp = pp / 256;
                            proof {
                                assert(out@ =~= ob + seq![(obb % 256) as u8]);
                            }
                        }
                        b = bb;
                        n = nn;
                        p = pp;
                        has_low = false;
                        low = 0;
                        proof {
                            assert(out@ =~= flushed_from + f.0);
                        }
                    }
                },
            }
            i = i + 1;
        }
        let ghost before_tail = out@;
        if has_low {
            proof {
                lemma_pow2_small(n as nat);
                if n < 7 {
                    lemma_pow2_strictly_increases(n as nat, 7);
                }
                assert((low as nat) * (p as nat) <= 91 * 128) by (nonlinear_arith)
                    requires
                        low < 91,
                        p <= 128,
                ;
            }
            out.push(((b + low * p) % 256) as u8);
        }
        proof {
            assert(s@.skip(i as int) =~= seq![]);
        }
        assert(opt_bytes(Some(out)) == decode_spec(s@)) by {
            if has_low {
                assert(out@ =~= before_tail + seq![((b + low * p) % 256) as u8]);
            } else {
                assert(out@ =~= before_tail + seq![]);
            }
        }
        Some(out)
    }
}

} // verus!
