//! Message digests.
use vstd::prelude::*;
use crate::text::push_char;

verus! {

/// The BLAKE3 hash of `data` (32 bytes).
pub uninterp spec fn blake3_hash(data: Seq<u8>) -> Seq<u8>;

/// `blake3::hash`: the 32-byte digest of `data`.
#[verifier::external_body]
fn blake3_exec(data: &[u8]) -> (r: Vec<u8>)
    ensures
        r@ == blake3_hash(data@),
        r.len() == 32,
{
    blake3::hash(data).as_bytes().to_vec()
}

/// The lowercase hexadecimal digit for `v` (0 <= v < 16).
pub open spec fn hex_digit(v: nat) -> char {
    if v < 10 {
        ((48 + v) as u8) as char
    } else {
        ((87 + v) as u8) as char
    }
}

/// The lowercase hexadecimal text of `bytes`, two digits per byte, high
/// digit first.
pub open spec fn hex_lower(bytes: Seq<u8>) -> Seq<char>
    decreases bytes.len(),
{
    if bytes.len() == 0 {
        Seq::empty()
    } else {
        hex_lower(bytes.drop_last()).push(hex_digit(bytes.last() as nat / 16)).push(
            hex_digit(bytes.last() as nat % 16),
        )
    }
}

fn hex_digit_exec(v: u8) -> (c: char)
    requires
        v < 16,
    ensures
        c == hex_digit(v as nat),
{
    if v < 10 {
        (48u8 + v) as char
    } else {
        (87u8 + v) as char
    }
}

/// The lowercase hexadecimal digits in order: `0123456789abcdef`.
pub open spec fn hex_alphabet() -> Seq<char> {
    seq!['0', '1', '2', '3', '4', '5', '6', '7', '8', '9', 'a', 'b', 'c', 'd', 'e', 'f']
}

/// Lowercase hexadecimal text: two characters per byte, at position `2i`
/// the digit of the high nibble of byte `i` and at `2i + 1` that of its low
/// nibble, each the nibble's place in `0123456789abcdef`.
pub proof fn hex_lower_law(bytes: Seq<u8>)
    ensures
        hex_lower(bytes).len() == 2 * bytes.len(),
        forall|k: int|
            0 <= k < hex_lower(bytes).len() ==> #[trigger] hex_lower(bytes)[k] == if k % 2 == 0 {
                hex_alphabet()[(bytes[k / 2] / 16) as int]
            } else {
                hex_alphabet()[(bytes[k / 2] % 16) as int]
            },
    decreases bytes.len(),
{
    assert(hex_digit(0) == hex_alphabet()[0]);
    assert(hex_digit(1) == hex_alphabet()[1]);
    assert(hex_digit(2) == hex_alphabet()[2]);
    assert(hex_digit(3) == hex_alphabet()[3]);
    assert(hex_digit(4) == hex_alphabet()[4]);
    assert(hex_digit(5) == hex_alphabet()[5]);
    assert(hex_digit(6) == hex_alphabet()[6]);
    assert(hex_digit(7) == hex_alphabet()[7]);
    assert(hex_digit(8) == hex_alphabet()[8]);
    assert(hex_digit(9) == hex_alphabet()[9]);
    assert(hex_digit(10) == hex_alphabet()[10]);
    assert(hex_digit(11) == hex_alphabet()[11]);
    assert(hex_digit(12) == hex_alphabet()[12]);
    assert(hex_digit(13) == hex_alphabet()[13]);
    assert(hex_digit(14) == hex_alphabet()[14]);
    assert(hex_digit(15) == hex_alphabet()[15]);
    if bytes.len() > 0 {
        let u = bytes.drop_last();
        hex_lower_law(u);
        let h = hex_lower(bytes);
        let n = bytes.len() as int;
        let b = bytes.last();
        assert(forall|v: nat| v < 16 ==> #[trigger] hex_digit(v) == hex_alphabet()[v as int]);
        assert forall|k: int| 0 <= k < h.len() implies #[trigger] h[k] == if k % 2 == 0 {
            hex_alphabet()[(bytes[k / 2] / 16) as int]
        } else {
            hex_alphabet()[(bytes[k / 2] % 16) as int]
        } by {
            if k < 2 * n - 2 {
                assert(h[k] == hex_lower(u)[k]);
                assert(u[k / 2] == bytes[k / 2]);
            } else if k == 2 * n - 2 {
                assert(k / 2 == n - 1);
                assert(hex_digit(b as nat / 16) == hex_alphabet()[(b as nat / 16) as int]);
            } else {
                assert(k / 2 == n - 1);
                assert(hex_digit(b as nat % 16) == hex_alphabet()[(b as nat % 16) as int]);
            }
        }
    }
}

/// The lowercase hexadecimal text of `bytes`.
pub fn to_hex(bytes: &[u8]) -> (r: String)
    ensures
        r@ == hex_lower(bytes@),
        r@.len() == 2 * bytes.len(),
        forall|k: int|
            0 <= k < r@.len() ==> #[trigger] r@[k] == if k % 2 == 0 {
                hex_alphabet()[(bytes[k / 2] / 16) as int]
            } else {
                hex_alphabet()[(bytes[k / 2] % 16) as int]
            },
{
    proof {
        hex_lower_law(bytes@);
    }
    let mut out = String::new();
    let mut k: usize = 0;
    while k < bytes.len()
        invariant
            k <= bytes.len(),
            out@ == hex_lower(bytes@.take(k as int)),
        decreases bytes.len() - k,
    {
        let b = bytes[k];
        push_char(&mut out, hex_digit_exec(b / 16));
        push_char(&mut out, hex_digit_exec(b % 16));
        assert(bytes@.take(k + 1).drop_last() =~= bytes@.take(k as int));
        k += 1;
    }
    assert(bytes@.take(bytes.len() as int) =~= bytes@);
    out
}

/// BLAKE3 digests.
pub struct Blake3;

impl Blake3 {
    /// The 32-byte BLAKE3 digest of `data`.
    pub fn digest_vec(data: &[u8]) -> (r: Vec<u8>)
        ensures
            r@ == blake3_hash(data@),
            r.len() == 32,
    {
        blake3_exec(data)
    }

    /// The BLAKE3 digest of `data` in lowercase hexadecimal (64 digits).
    pub fn digest_hex(data: &[u8]) -> (r: String)
        ensures
            r@ == hex_lower(blake3_hash(data@)),
            r@.len() == 64,
            forall|k: int|
                0 <= k < r@.len() ==> #[trigger] r@[k] == if k % 2 == 0 {
                    hex_alphabet()[(blake3_hash(data@)[k / 2] / 16) as int]
                } else {
                    hex_alphabet()[(blake3_hash(data@)[k / 2] % 16) as int]
                },
    {
        let digest = blake3_exec(data);
        to_hex(digest.as_slice())
    }
}

} // verus!
