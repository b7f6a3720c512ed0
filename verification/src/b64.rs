//! Standard base64 (RFC 4648 alphabet, with `=` padding), as computed by
//! the `base64` crate's `STANDARD` engine.
use vstd::prelude::*;
use base64::Engine;

verus! {

/// The symbol of the standard alphabet for the 6-bit value `v`.
pub open spec fn base64_symbol(v: u8) -> char {
    if v < 26 {
        ('A' as u8 + v) as char
    } else if v < 52 {
        ('a' as u8 + (v - 26)) as char
    } else if v < 62 {
        ('0' as u8 + (v - 52)) as char
    } else if v == 62 {
        '+'
    } else {
        '/'
    }
}

/// The standard base64 alphabet in value order:
/// `ABCDEFGHIJKLMNOPQRSTUVWXYZabcdefghijklmnopqrstuvwxyz0123456789+/`.
pub open spec fn base64_alphabet() -> Seq<char> {
    seq![
        'A', 'B', 'C', 'D', 'E', 'F', 'G', 'H', 'I', 'J', 'K', 'L', 'M', 'N', 'O', 'P',
        'Q', 'R', 'S', 'T', 'U', 'V', 'W', 'X', 'Y', 'Z', 'a', 'b', 'c', 'd', 'e', 'f',
        'g', 'h', 'i', 'j', 'k', 'l', 'm', 'n', 'o', 'p', 'q', 'r', 's', 't', 'u', 'v',
        'w', 'x', 'y', 'z', '0', '1', '2', '3', '4', '5', '6', '7', '8', '9', '+', '/',
    ]
}

/// The symbol for a 6-bit value is the value's place in the standard
/// alphabet.
#[verifier::rlimit(40)]
pub proof fn base64_symbol_table()
    ensures
        base64_alphabet().len() == 64,
        forall|v: u8| v < 64 ==> #[trigger] base64_symbol(v) == base64_alphabet()[v as int],
{
    assert(base64_symbol(0) == base64_alphabet()[0]);
    assert(base64_symbol(1) == base64_alphabet()[1]);
    assert(base64_symbol(2) == base64_alphabet()[2]);
    assert(base64_symbol(3) == base64_alphabet()[3]);
    assert(base64_symbol(4) == base64_alphabet()[4]);
    assert(base64_symbol(5) == base64_alphabet()[5]);
    assert(base64_symbol(6) == base64_alphabet()[6]);
    assert(base64_symbol(7) == base64_alphabet()[7]);
    assert(base64_symbol(8) == base64_alphabet()[8]);
    assert(base64_symbol(9) == base64_alphabet()[9]);
    assert(base64_symbol(10) == base64_alphabet()[10]);
    assert(base64_symbol(11) == base64_alphabet()[11]);
    assert(base64_symbol(12) == base64_alphabet()[12]);
    assert(base64_symbol(13) == base64_alphabet()[13]);
    assert(base64_symbol(14) == base64_alphabet()[14]);
    assert(base64_symbol(15) == base64_alphabet()[15]);
    assert(base64_symbol(16) == base64_alphabet()[16]);
    assert(base64_symbol(17) == base64_alphabet()[17]);
    assert(base64_symbol(18) == base64_alphabet()[18]);
    assert(base64_symbol(19) == base64_alphabet()[19]);
    assert(base64_symbol(20) == base64_alphabet()[20]);
    assert(base64_symbol(21) == base64_alphabet()[21]);
    assert(base64_symbol(22) == base64_alphabet()[22]);
    assert(base64_symbol(23) == base64_alphabet()[23]);
    assert(base64_symbol(24) == base64_alphabet()[24]);
    assert(base64_symbol(25) == base64_alphabet()[25]);
    assert(base64_symbol(26) == base64_alphabet()[26]);
    assert(base64_symbol(27) == base64_alphabet()[27]);
    assert(base64_symbol(28) == base64_alphabet()[28]);
    assert(base64_symbol(29) == base64_alphabet()[29]);
    assert(base64_symbol(30) == base64_alphabet()[30]);
    assert(base64_symbol(31) == base64_alphabet()[31]);
    assert(base64_symbol(32) == base64_alphabet()[32]);
    assert(base64_symbol(33) == base64_alphabet()[33]);
    assert(base64_symbol(34) == base64_alphabet()[34]);
    assert(base64_symbol(35) == base64_alphabet()[35]);
    assert(base64_symbol(36) == base64_alphabet()[36]);
    assert(base64_symbol(37) == base64_alphabet()[37]);
    assert(base64_symbol(38) == base64_alphabet()[38]);
    assert(base64_symbol(39) == base64_alphabet()[39]);
    assert(base64_symbol(40) == base64_alphabet()[40]);
    assert(base64_symbol(41) == base64_alphabet()[41]);
    assert(base64_symbol(42) == base64_alphabet()[42]);
    assert(base64_symbol(43) == base64_alphabet()[43]);
    assert(base64_symbol(44) == base64_alphabet()[44]);
    assert(base64_symbol(45) == base64_alphabet()[45]);
    assert(base64_symbol(46) == base64_alphabet()[46]);
    assert(base64_symbol(47) == base64_alphabet()[47]);
    assert(base64_symbol(48) == base64_alphabet()[48]);
    assert(base64_symbol(49) == base64_alphabet()[49]);
    assert(base64_symbol(50) == base64_alphabet()[50]);
    assert(base64_symbol(51) == base64_alphabet()[51]);
    assert(base64_symbol(52) == base64_alphabet()[52]);
    assert(base64_symbol(53) == base64_alphabet()[53]);
    assert(base64_symbol(54) == base64_alphabet()[54]);
    assert(base64_symbol(55) == base64_alphabet()[55]);
    assert(base64_symbol(56) == base64_alphabet()[56]);
    assert(base64_symbol(57) == base64_alphabet()[57]);
    assert(base64_symbol(58) == base64_alphabet()[58]);
    assert(base64_symbol(59) == base64_alphabet()[59]);
    assert(base64_symbol(60) == base64_alphabet()[60]);
    assert(base64_symbol(61) == base64_alphabet()[61]);
    assert(base64_symbol(62) == base64_alphabet()[62]);
    assert(base64_symbol(63) == base64_alphabet()[63]);
    assert forall|v: u8| v < 64 implies #[trigger] base64_symbol(v) == base64_alphabet()[v as int] by {
        assert(v == 0 || v == 1 || v == 2 || v == 3 || v == 4 || v == 5 || v == 6 || v == 7 || v == 8 || v == 9 || v == 10 || v == 11 || v == 12 || v == 13 || v == 14 || v == 15 || v == 16 || v == 17 || v == 18 || v == 19 || v == 20 || v == 21 || v == 22 || v == 23 || v == 24 || v == 25 || v == 26 || v == 27 || v == 28 || v == 29 || v == 30 || v == 31 || v == 32 || v == 33 || v == 34 || v == 35 || v == 36 || v == 37 || v == 38 || v == 39 || v == 40 || v == 41 || v == 42 || v == 43 || v == 44 || v == 45 || v == 46 || v == 47 || v == 48 || v == 49 || v == 50 || v == 51 || v == 52 || v == 53 || v == 54 || v == 55 || v == 56 || v == 57 || v == 58 || v == 59 || v == 60 || v == 61 || v == 62 || v == 63);
    }
}

/// The standard base64 text of `bytes` (RFC 4648, section 4): each group of
/// three bytes becomes four symbols, and a last group of one or two bytes
/// becomes two or three symbols padded with `=` to four.
pub closed spec fn base64_encode(bytes: Seq<u8>) -> Seq<char>
    decreases bytes.len(),
{
    if bytes.len() == 0 {
        seq![]
    } else if bytes.len() == 1 {
        seq![base64_symbol(bytes[0] >> 2u8), base64_symbol((bytes[0] & 3u8) << 4u8), '=', '=']
    } else if bytes.len() == 2 {
        seq![
            base64_symbol(bytes[0] >> 2u8),
            base64_symbol(((bytes[0] & 3u8) << 4u8) | (bytes[1] >> 4u8)),
            base64_symbol((bytes[1] & 15u8) << 2u8),
            '=',
        ]
    } else {
        seq![
            base64_symbol(bytes[0] >> 2u8),
            base64_symbol(((bytes[0] & 3u8) << 4u8) | (bytes[1] >> 4u8)),
            base64_symbol(((bytes[1] & 15u8) << 2u8) | (bytes[2] >> 6u8)),
            base64_symbol(bytes[2] & 63u8),
        ] + base64_encode(bytes.skip(3))
    }
}

/// The bytes that the standard base64 text `text` stands for: the bytes
/// whose encoding is `text`, or `None` when `text` is no such encoding
/// (padding is required and trailing bits must be zero, so only canonical
/// text decodes).
pub closed spec fn base64_decode(text: Seq<char>) -> Option<Seq<u8>> {
    if exists|b: Seq<u8>| base64_encode(b) == text {
        Some(choose|b: Seq<u8>| base64_encode(b) == text)
    } else {
        None
    }
}

/// A symbol of standard base64 text: `A`-`Z`, `a`-`z`, `0`-`9`, `+`, `/`
/// or the padding `=`.
pub open spec fn is_base64_symbol(c: char) -> bool {
    ('A' <= c <= 'Z') || ('a' <= c <= 'z') || ('0' <= c <= '9') || c == '+' || c == '/' || c == '='
}

/// The bytes of a successful result.
pub open spec fn ok_bytes<E>(r: Result<Vec<u8>, E>) -> Option<Seq<u8>> {
    match r {
        Ok(v) => Some(v@),
        Err(_) => None,
    }
}

/// Why base64 text was refused (the variants of `base64::DecodeError`).
#[derive(Clone, Copy, Debug, PartialEq, Eq, Structural)]
pub enum Base64Error {
    /// A byte outside the alphabet, at an offset.
    InvalidByte(usize, u8),
    /// The number of symbols cannot end a quad.
    InvalidLength(usize),
    /// The last symbol carries bits that would be dropped.
    InvalidLastSymbol(usize, u8),
    /// Missing or misplaced padding.
    InvalidPadding,
}

/// `STANDARD.encode`: the base64 text of `bytes`; it is made of the
/// alphabet and the padding only.
#[verifier::external_body]
pub(crate) fn base64_encode_exec(bytes: &[u8]) -> (r: String)
    ensures
        r@ == base64_encode(bytes@),
        forall|i: int| 0 <= i < r@.len() ==> #[trigger] is_base64_symbol(r@[i]),
{
    base64::engine::general_purpose::STANDARD.encode(bytes)
}

/// `STANDARD.decode` of `text`; it succeeds exactly on
/// canonical text and gives back the bytes that were encoded. Which variant
/// of the error comes back is not stated.
#[verifier::external_body]
pub(crate) fn base64_decode_exec(text: &str) -> (r: Result<Vec<u8>, Base64Error>)
    ensures
        ok_bytes(r) == base64_decode(text@),
        forall|b: Seq<u8>| base64_encode(b) == text@ ==> ok_bytes(r) == Some(b),
{
    match base64::engine::general_purpose::STANDARD.decode(text) {
        Ok(v) => Ok(v),
        Err(base64::DecodeError::InvalidByte(i, b)) => Err(Base64Error::InvalidByte(i, b)),
        Err(base64::DecodeError::InvalidLength(n)) => Err(Base64Error::InvalidLength(n)),
        Err(base64::DecodeError::InvalidLastSymbol(i, b)) => Err(Base64Error::InvalidLastSymbol(i, b)),
        Err(base64::DecodeError::InvalidPadding) => Err(Base64Error::InvalidPadding),
    }
}

} // verus!
