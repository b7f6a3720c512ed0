# code_auth

Activation codes for software products, and the toolkit around them, written
in Verus: the executable code carries `requires`/`ensures` contracts that
Verus proves.

- `src/` — the verified library.
  - `code` — activation codes of two kinds (description in clear or sealed),
    their generation and verification, and the big-endian code description.
  - `base`, `base_roundtrip` — basE91 text and the proof that decoding reads
    back what encoding wrote.
  - `aes`, `aes_text` — AES-GCM with the nonce in front of the ciphertext,
    and its base64 text form under a fixed key.
  - `compress` — LZ4, gzip and Zstandard with decompression-bomb limits.
  - `kdf` — PBKDF2, Argon2, scrypt and HKDF presets.
  - `ecc` — ECDSA over a BLAKE3 digest and Diffie-Hellman on P-256,
    secp256k1 and P-384.
  - `pem`, `b64`, `rsa_oaep` — PEM framing and RSA-OAEP (SHA-256).
  - `client` — the decisions of the activation client between its requests:
    reply envelopes, the key exchange, sealed request fields, the local
    license check and the client's state.
  - `hash`, `bytes`, `text` — digests, byte order and character helpers.
- `tests/` — tests against the compiled library.
- `app/` — the WebAssembly bindings: the server toolkit (which reads the
  JavaScript clock and calls the code functions that take the reading,
  since std has no clock on that target), and on the client
  side the JSON `POST` helper, the health check and the client's stored
  state. The client's key exchange, activation, renewal and local license
  check also need RSA-2048 key exchange, AES-256-GCM-SIV sealing and Base85
  text, which this crate does not provide; their decisions are verified in
  `src/client.rs`, so the bindings stop short of those flows (and of the
  public-key check that goes with them).

Calls into cryptographic and compression crates stand behind small trusted
wrappers whose contracts name what the crate computes; everything around
them is verified.
