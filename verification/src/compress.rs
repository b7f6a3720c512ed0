//! Compression with a guard against decompression bombs: a decompressed
//! size is refused when it exceeds 1024 times the compressed size or
//! 256 MiB.
use vstd::prelude::*;
use crate::bytes::{opt_bytes, u32_le, u32_from_le, read_u32_le, lemma_u32_le_roundtrip};
use std::io::{Read, Write};

verus! {

/// Largest accepted ratio of decompressed to compressed size.
pub const MAX_COMPRESSION_RATIO: u64 = 1024;

/// Largest accepted decompressed size (256 MiB).
pub const MAX_DECOMPRESSED_SIZE: u64 = 0x1000_0000;

/// The largest decompressed size accepted for a compressed input of `len`
/// bytes.
pub open spec fn bomb_limit(len: nat) -> nat {
    if len * (MAX_COMPRESSION_RATIO as nat) < MAX_DECOMPRESSED_SIZE {
        len * (MAX_COMPRESSION_RATIO as nat)
    } else {
        MAX_DECOMPRESSED_SIZE as nat
    }
}

fn bomb_limit_exec(len: usize) -> (r: u64)
    ensures
        r == bomb_limit(len as nat),
{
    match (len as u64).checked_mul(MAX_COMPRESSION_RATIO) {
        Some(v) => if v < MAX_DECOMPRESSED_SIZE {
            v
        } else {
            MAX_DECOMPRESSED_SIZE
        },
        None => MAX_DECOMPRESSED_SIZE,
    }
}

/// The LZ4 block that `lz4_flex::compress_prepend_size` writes after the
/// size.
pub uninterp spec fn lz4_block(input: Seq<u8>) -> Seq<u8>;

/// LZ4 block compression with the input size prepended as a little-endian
/// `u32` (`lz4_flex::compress_prepend_size`).
pub open spec fn lz4_compress(input: Seq<u8>) -> Seq<u8> {
    u32_le((input.len() as nat % 0x1_0000_0000) as u32) + lz4_block(input)
}

/// LZ4 block decompression of input with a prepended size
/// (`lz4_flex::decompress_size_prepended`).
pub uninterp spec fn lz4_decompress(input: Seq<u8>) -> Option<Seq<u8>>;

/// The gzip header and deflate stream that `flate2::write::GzEncoder` at
/// the default level writes for `input`.
pub uninterp spec fn gzip_deflated(input: Seq<u8>) -> Seq<u8>;

/// Eight rounds of the reflected CRC-32 register shift with the
/// polynomial 0xEDB88320, `rounds` of them left.
pub open spec fn crc32_shift(crc: u32, rounds: nat) -> u32
    decreases rounds,
{
    if rounds == 0 {
        crc
    } else {
        let next = if crc & 1u32 == 1u32 {
            (crc >> 1u32) ^ 0xEDB8_8320u32
        } else {
            crc >> 1u32
        };
        crc32_shift(next, (rounds - 1) as nat)
    }
}

/// The CRC-32 register after `input`, starting from all ones.
pub open spec fn crc32_register(input: Seq<u8>) -> u32
    decreases input.len(),
{
    if input.len() == 0 {
        0xFFFF_FFFFu32
    } else {
        crc32_shift(crc32_register(input.drop_last()) ^ (input.last() as u32), 8)
    }
}

/// The CRC-32 of `input` that a gzip trailer carries (ISO-HDLC, as RFC 1952
/// specifies it): the final register with all bits inverted.
pub open spec fn gzip_crc32(input: Seq<u8>) -> u32 {
    crc32_register(input) ^ 0xFFFF_FFFFu32
}

/// A gzip member (RFC 1952) for `input`: header and deflate stream, then
/// CRC-32 and the input length modulo 2^32, both little-endian.
pub open spec fn gzip_member(input: Seq<u8>) -> Seq<u8> {
    gzip_deflated(input) + u32_le(gzip_crc32(input)) + u32_le((input.len() as nat % 0x1_0000_0000) as u32)
}

/// Gzip decompression reading at most `cap` bytes of output
/// (`flate2::read::GzDecoder` behind `Read::take(cap)`).
pub uninterp spec fn gzip_decompress_bounded(input: Seq<u8>, cap: u64) -> Option<Seq<u8>>;

/// Zstandard compression at `level` (`zstd::encode_all`).
pub uninterp spec fn zstd_compress(input: Seq<u8>, level: i32) -> Option<Seq<u8>>;

/// Zstandard decompression reading at most `cap` bytes of output
/// (`zstd::Decoder` behind `Read::take(cap)`).
pub uninterp spec fn zstd_decompress_bounded(input: Seq<u8>, cap: u64) -> Option<Seq<u8>>;

/// `lz4_flex::compress_prepend_size`: the input length as a little-endian
/// `u32` (truncated to 32 bits), then the compressed block.
#[verifier::external_body]
fn lz4_compress_exec(input: &[u8]) -> (r: Vec<u8>)
    ensures
        r@ == u32_le((input.len() as nat % 0x1_0000_0000) as u32) + lz4_block(input@),
{
    lz4_flex::compress_prepend_size(input)
}

/// `lz4_flex::decompress_size_prepended`: it writes into a buffer of the
/// declared size and fails rather than go past it; decompressing what
/// `compress_prepend_size` wrote gives back its input.
#[verifier::external_body]
fn lz4_decompress_exec(input: &[u8]) -> (r: Option<Vec<u8>>)
    ensures
        opt_bytes(r) == lz4_decompress(input@),
        r matches Some(v) ==> input.len() >= 4 && v.len() <= u32_from_le(input@.take(4)),
        forall|x: Seq<u8>|
            x.len() <= u32::MAX && input@ == lz4_compress(x) ==> opt_bytes(r) == Some(x),
{
    lz4_flex::decompress_size_prepended(input).ok()
}

/// `flate2::write::GzEncoder` over a `Vec` at `Compression::default()`:
/// `write_all` then `finish`. Writing into a `Vec` does not fail and the
/// deflate backend (miniz_oxide at a valid level) reports no error, so it
/// succeeds; what it writes is a gzip member for the input (a 10-byte
/// header and the deflate stream, CRC-32, length modulo 2^32, RFC 1952).
#[verifier::external_body]
fn gzip_compress_exec(input: &[u8]) -> (r: Option<Vec<u8>>)
    ensures
        r is Some,
        r matches Some(c) ==> c@ == gzip_deflated(input@) + u32_le(gzip_crc32(input@)) + u32_le(
            (input.len() as nat % 0x1_0000_0000) as u32,
        ) && c.len() >= 18,
{
    let mut encoder = flate2::write::GzEncoder::new(Vec::new(), flate2::Compression::default());
    encoder.write_all(input).ok()?;
    encoder.finish().ok()
}

/// `flate2::read::GzDecoder` read through `Read::take(cap)` with
/// `read_to_end`: at most `cap` bytes; decompressing a gzip member of fewer
/// than `cap` bytes gives them back.
#[verifier::external_body]
fn gzip_decompress_exec(input: &[u8], cap: u64) -> (r: Option<Vec<u8>>)
    ensures
        opt_bytes(r) == gzip_decompress_bounded(input@, cap),
        r matches Some(v) ==> v.len() <= cap,
        forall|x: Seq<u8>|
            x.len() < cap && input@ == gzip_member(x) ==> opt_bytes(r) == Some(x),
{
    let mut buf = Vec::new();
    flate2::read::GzDecoder::new(input).take(cap).read_to_end(&mut buf).ok()?;
    Some(buf)
}

/// `zstd::encode_all` at `level`: one Zstandard frame, which is at least
/// 9 bytes long (magic number, a frame header of at least 2 bytes and at
/// least one block header, RFC 8878). With a level in zstd's range the
/// level is accepted, reading a slice and writing into a `Vec` do not fail,
/// and the streaming compressor loops until the frame is flushed, so it
/// succeeds.
#[verifier::external_body]
fn zstd_compress_exec(input: &[u8], level: i32) -> (r: Option<Vec<u8>>)
    requires
        1 <= level <= 22,
    ensures
        r is Some,
        opt_bytes(r) == zstd_compress(input@, level),
        r matches Some(c) ==> c.len() >= 9,
{
    zstd::encode_all(input, level).ok()
}

/// `zstd::Decoder` read through `Read::take(cap)` with `read_to_end`: at
/// most `cap` bytes; decompressing a frame that `encode_all` wrote for fewer
/// than `cap` bytes gives them back.
#[verifier::external_body]
fn zstd_decompress_exec(input: &[u8], cap: u64) -> (r: Option<Vec<u8>>)
    ensures
        opt_bytes(r) == zstd_decompress_bounded(input@, cap),
        r matches Some(v) ==> v.len() <= cap,
        forall|x: Seq<u8>, level: i32|
            x.len() < cap && zstd_compress(x, level) == Some(input@) ==> opt_bytes(r) == Some(x),
{
    let mut buf = Vec::new();
    zstd::Decoder::new(input).ok()?.take(cap).read_to_end(&mut buf).ok()?;
    Some(buf)
}

/// What the bomb-guarded LZ4 decompression gives.
pub open spec fn lz4_guarded_spec(input: Seq<u8>) -> Option<Seq<u8>> {
    if input.len() < 4 || u32_from_le(input.take(4)) > bomb_limit(input.len()) {
        None
    } else {
        lz4_decompress(input)
    }
}

/// What the bomb-guarded gzip decompression gives.
pub open spec fn gzip_guarded_spec(input: Seq<u8>) -> Option<Seq<u8>> {
    let limit = bomb_limit(input.len());
    if input.len() >= 4 && u32_from_le(input.skip(input.len() - 4)) > limit {
        None
    } else {
        match gzip_decompress_bounded(input, (limit + 1) as u64) {
            None => None,
            Some(v) => if v.len() > limit {
                None
            } else {
                Some(v)
            },
        }
    }
}

/// What the bomb-guarded Zstandard decompression gives.
pub open spec fn zstd_guarded_spec(input: Seq<u8>) -> Option<Seq<u8>> {
    let limit = bomb_limit(input.len());
    match zstd_decompress_bounded(input, (limit + 1) as u64) {
        None => None,
        Some(v) => if v.len() > limit {
            None
        } else {
            Some(v)
        },
    }
}

/// Compresses and decompresses bytes.
pub trait Compressor {
    /// The compressed bytes; `None` when compression fails.
    fn compress(input: &[u8]) -> Option<Vec<u8>>;

    /// The decompressed bytes; `None` when the input is malformed or would
    /// decompress to more than the bomb limit.
    fn decompress(input: &[u8]) -> Option<Vec<u8>>;
}

/// LZ4 block format with the decompressed size prepended.
pub struct Lz4;

/// Gzip (RFC 1952) at the default level.
pub struct Gzip;

/// Zstandard at level 5.
pub struct Zstd;

impl Compressor for Lz4 {
    fn compress(input: &[u8]) -> (r: Option<Vec<u8>>)
        ensures
            r matches Some(c) && c@ == lz4_compress(input@),
    {
        Some(lz4_compress_exec(input))
    }

    fn decompress(input: &[u8]) -> (r: Option<Vec<u8>>)
        ensures
            opt_bytes(r) == lz4_guarded_spec(input@),
            r matches Some(v) ==> v.len() <= bomb_limit(input.len() as nat),
            forall|x: Seq<u8>|
                x.len() <= bomb_limit(input.len() as nat) && input@ == lz4_compress(x) ==> opt_bytes(r)
                    == Some(x),
    {
        proof {
            assert forall|x: Seq<u8>|
                x.len() <= bomb_limit(input.len() as nat) && input@ == lz4_compress(x) implies input.len()
                >= 4 && u32_from_le(input@.take(4)) == x.len() by {
                lemma_u32_le_roundtrip((x.len() % 0x1_0000_0000) as u32);
                assert(input@.take(4) =~= u32_le((x.len() % 0x1_0000_0000) as u32));
            }
        }
        if input.len() < 4 {
            return None;
        }
        let declared_size = read_u32_le(input, 0) as u64;
        assert(input@.subrange(0, 4) =~= input@.take(4));
        let limit = bomb_limit_exec(input.len());
        if declared_size > limit {
            return None;
        }
        lz4_decompress_exec(input)
    }
}

impl Compressor for Gzip {
    fn compress(input: &[u8]) -> (r: Option<Vec<u8>>)
        ensures
            r matches Some(c) && c@ == gzip_member(input@) && c.len() >= 18,
    {
        gzip_compress_exec(input)
    }

    fn decompress(input: &[u8]) -> (r: Option<Vec<u8>>)
        ensures
            opt_bytes(r) == gzip_guarded_spec(input@),
            r matches Some(v) ==> v.len() <= bomb_limit(input.len() as nat),
            forall|x: Seq<u8>|
                x.len() <= bomb_limit(input.len() as nat) && input@ == gzip_member(x) ==> opt_bytes(r)
                    == Some(x),
    {
        let limit = bomb_limit_exec(input.len());
        if input.len() >= 4 {
            let original_size = read_u32_le(input, input.len() - 4) as u64;
            assert(input@.subrange(input.len() - 4, input.len() as int) =~= input@.skip(input.len() - 4));
            if original_size > limit {
                proof {
                    assert forall|x: Seq<u8>|
                        x.len() <= limit && input@ == gzip_member(x) implies false by {
                        lemma_u32_le_roundtrip((x.len() % 0x1_0000_0000) as u32);
                        assert(input@.skip(input.len() - 4) =~= u32_le((x.len() % 0x1_0000_0000) as u32));
                    }
                }
                return None;
            }
        }
        let buf = match gzip_decompress_exec(input, limit + 1) {
            Some(b) => b,
            None => return None,
        };
        if buf.len() as u64 > limit {
            return None;
        }
        Some(buf)
    }
}

impl Compressor for Zstd {
    fn compress(input: &[u8]) -> (r: Option<Vec<u8>>)
        ensures
            r is Some,
            opt_bytes(r) == zstd_compress(input@, 5),
            r matches Some(c) ==> c.len() >= 9,
    {
        zstd_compress_exec(input, 5)
    }

    fn decompress(input: &[u8]) -> (r: Option<Vec<u8>>)
        ensures
            opt_bytes(r) == zstd_guarded_spec(input@),
            r matches Some(v) ==> v.len() <= bomb_limit(input.len() as nat),
            forall|x: Seq<u8>|
                x.len() <= bomb_limit(input.len() as nat) && zstd_compress(x, 5) == Some(input@) ==> opt_bytes(r)
                    == Some(x),
    {
        let limit = bomb_limit_exec(input.len());
        let buf = match zstd_decompress_exec(input, limit + 1) {
            Some(b) => b,
            None => return None,
        };
        if buf.len() as u64 > limit {
            return None;
        }
        Some(buf)
    }
}

} // verus!
