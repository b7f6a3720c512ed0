use code_auth::compress::{Compressor, Gzip, Lz4, Zstd};

const SAMPLE: &[u8] = b"\
!function(o,t){''object''==typeof exports&&''object''==typeof module?module.exports=t():''function''==typeof define&&define.amd?define([],t):''object''==typeof exports?exports[''family-aa686e0e9e4d122550f8'']=t():o[''family-aa686e0e9e4d122550f8'']=t()}(window,function(){return function(o){var t={};function q(n){if(t[n])return t[n].exports;var e=t[n]={i:n,l:!1,exports:{}};return o[n].call(e.exports,e,e.exports,q),e.l=!0,e.exports}return q.m=o,q.c=t,q.d=function(o,t,n){q.o(o,t)||Object.defineProperty(o,t,{enumerable:!0,get:n})},q.r=function(o){''undefined''!=typeof Symbol&&Symbol.toStringTag&&Object.defineProperty(o,Symbol.toStringTag,{value:''Module''}),Object.defineProperty(o,''__esModule'',{value:!0})},q.t=function(o,t){if(1&t&&(o=q(o)),8&t)return o;if(4&t&&''object''==typeof o&&o&&o.__esModule)return o;var n=Object.create(null);if(q.r(n),Object.defineProperty(n,''default'',{enumerable:!0,value:o}),2&t&&''string''!=typeof o)for(var e in o)q.d(n,e,function(t){return o[t]}.bind(null,e));return n},q.n=function(o){var t=o&&o.__esModule?function(){return o.default}:function(){return o};return q.d(t,''a'',t),t},q.o=function(o,t){return Object.prototype.hasOwnProperty.call(o,t)},q.p=''/'',q(q.s=62)}({0:function(o,t,q){''use strict'';(function(o,n){vare;q.d(t,''a'',function(){return basicScroll}),function(t){''object''==typeof exports&&void 0!==o?o.exports=t():''function''==typeof define&&q(45)?define([],t):(''undefined''!=typeof window?window:void 0!==n?n:''undefined''!=typeof self?self:this).basicScroll=t()}(function(){return function o(t,q,n){function r(U,a){if(!q[U]){if(!t[U]){if(!a&&''function''==typeof e&&e)return e(U,!0);if(V)return V(U,!0);var i=new Error(''Cannot find module '''+U+''''');throwi.code=''MODULE_NOT_FOUND'',i}var p=q[U]={exports:{}};t[U][0].call(p.exports,function(o){return r(t[U][1][o]||o)},
    ";

fn round_trip<C: Compressor>(label: &str) {
    let compressed = C::compress(SAMPLE).expect("compress failed");
    let decompressed = C::decompress(&compressed).expect("decompress failed");
    assert_eq!(decompressed, SAMPLE, "{label}: round-trip mismatch");
}

#[test]
fn test_lz4() {
    round_trip::<Lz4>("lz4");
}

#[test]
fn test_gzip() {
    round_trip::<Gzip>("gzip");
}

#[test]
fn test_zstd() {
    round_trip::<Zstd>("zstd");
}

#[test]
fn test_gzip_bomb_rejected() {
    let mut compressed = Gzip::compress(SAMPLE).expect("compress failed");
    let len = compressed.len();
    compressed[len - 4..].copy_from_slice(&0xFFFF_FFFFu32.to_le_bytes());
    assert!(Gzip::decompress(&compressed).is_none(), "gzip bomb should be rejected");
}

#[test]
fn test_zstd_large() {
    let large_data = vec![0u8; 50 * 1024 * 1024];
    let compressed = Zstd::compress(&large_data).expect("compress failed");
    let decompressed = Zstd::decompress(&compressed);
    assert!(decompressed.is_none());
}

#[test]
fn test_empty_input() {
    let empty = b"";
    assert_eq!(Lz4::compress(empty).as_deref().and_then(Lz4::decompress), Some(vec![]));
    assert_eq!(Gzip::compress(empty).as_deref().and_then(Gzip::decompress), Some(vec![]));
    assert_eq!(Zstd::compress(empty).as_deref().and_then(Zstd::decompress), Some(vec![]));
}

#[test]
fn test_invalid_data_returns_none() {
    let garbage = b"this is definitely not valid compressed data!!!";
    assert!(Lz4::decompress(garbage).is_none());
    assert!(Gzip::decompress(garbage).is_none());
    assert!(Zstd::decompress(garbage).is_none());
}

#[test]
fn lz4_frame_starts_with_length() {
    let compressed = Lz4::compress(b"abcabcabc").expect("compress failed");
    assert_eq!(&compressed[..4], &9u32.to_le_bytes());
    assert_ne!(compressed, b"abcabcabc".to_vec());
}

#[test]
fn lz4_declared_size_over_ratio_rejected() {
    let mut compressed = Lz4::compress(SAMPLE).expect("compress failed");
    compressed[..4].copy_from_slice(&0x7FFF_FFFFu32.to_le_bytes());
    assert!(Lz4::decompress(&compressed).is_none());
}

#[test]
fn gzip_member_ends_with_size() {
    let compressed = Gzip::compress(SAMPLE).expect("compress failed");
    let len = compressed.len();
    let mut size = [0u8; 4];
    size.copy_from_slice(&compressed[len - 4..]);
    assert_eq!(u32::from_le_bytes(size) as usize, SAMPLE.len());
}

#[test]
fn zstd_output_differs_from_input() {
    let compressed = Zstd::compress(SAMPLE).expect("compress failed");
    assert_ne!(compressed, SAMPLE.to_vec());
    assert!(compressed.len() < SAMPLE.len());
}

#[test]
fn empty_input_still_makes_a_whole_frame() {
    let gz = Gzip::compress(b"").expect("gzip");
    assert!(gz.len() >= 18);
    assert_eq!(&gz[..2], &[0x1f, 0x8b]);
    assert_eq!(Gzip::decompress(&gz), Some(Vec::new()));
    let zs = Zstd::compress(b"").expect("zstd");
    assert!(zs.len() >= 9);
    assert_eq!(&zs[..4], &[0x28, 0xb5, 0x2f, 0xfd]);
    assert_eq!(Zstd::decompress(&zs), Some(Vec::new()));
}

#[test]
fn gzip_trailer_carries_crc32_and_length() {
    // The CRC-32 check value of "123456789" is 0xCBF43926.
    let gz = Gzip::compress(b"123456789").expect("gzip");
    let n = gz.len();
    assert_eq!(&gz[n - 8..n - 4], &0xCBF4_3926u32.to_le_bytes());
    assert_eq!(&gz[n - 4..], &9u32.to_le_bytes());
    let empty = Gzip::compress(b"").expect("gzip");
    let m = empty.len();
    assert_eq!(&empty[m - 8..], &[0u8; 8]);
}
