//! RSA-OAEP (SHA-256) with keys in PEM (SPKI public keys, PKCS#8 private
//! keys) and ciphertexts in standard base64, and the PEM framing of key
//! bytes.
use vstd::prelude::*;
use vstd::utf8::{decode_utf8, valid_utf8};
use crate::b64::{Base64Error, base64_decode, base64_decode_exec, base64_encode, base64_encode_exec, is_base64_symbol, ok_bytes};
use crate::pem::{lacks, pem_body, pem_body_of, pem_text, pem_text_of, lemma_pem_body_of_pem_text};
use crate::text::utf8_string;
use rsa::pkcs8::{DecodePrivateKey, DecodePublicKey, EncodePrivateKey, EncodePublicKey, LineEnding};

verus! {

/// Why an RSA operation failed.
#[derive(Clone, Copy, Debug, PartialEq, Eq, Structural)]
pub enum RsaError {
    /// A key could not be read from, or written to, PEM.
    KeyEncoding,
    /// The `rsa` crate refused the key generation, encryption or decryption.
    Crypto,
    /// The ciphertext text is not standard base64.
    Base64(Base64Error),
    /// The decrypted bytes are not UTF-8.
    Utf8,
}

/// Whether `pem` holds an RSA public key as a PEM `PUBLIC KEY` (SPKI) that
/// `RsaPublicKey::from_public_key_pem` accepts.
pub uninterp spec fn spki_pem_accepts(pem: Seq<char>) -> bool;

/// Whether `pem` holds an RSA private key as a PEM `PRIVATE KEY` (PKCS#8)
/// that `RsaPrivateKey::from_pkcs8_pem` accepts.
pub uninterp spec fn pkcs8_pem_accepts(pem: Seq<char>) -> bool;

/// The label of a public key document.
pub open spec fn public_key_label() -> Seq<char> {
    seq!['P', 'U', 'B', 'L', 'I', 'C', ' ', 'K', 'E', 'Y']
}

/// The label of a private key document.
pub open spec fn private_key_label() -> Seq<char> {
    seq!['P', 'R', 'I', 'V', 'A', 'T', 'E', ' ', 'K', 'E', 'Y']
}

/// Whether `s` is a PEM document with label `label` as written with `\n`
/// line endings: non-empty standard base64 text framed as `pem_text` does,
/// followed by a final line break.
pub open spec fn is_pem_document(s: Seq<char>, label: Seq<char>) -> bool {
    exists|t: Seq<char>|
        t.len() > 0 && (forall|i: int| 0 <= i < t.len() ==> #[trigger] is_base64_symbol(t[i])) && s
            == #[trigger] pem_text(t, label) + seq!['\n']
}

/// The PEM `PUBLIC KEY` text that `EncodePublicKey::to_public_key_pem`
/// writes, with `\n` line endings, for the key that
/// `RsaPublicKey::from_public_key_pem` reads from `pem`; `None` when
/// reading or writing fails.
pub uninterp spec fn spki_pem_written(pem: Seq<char>) -> Option<Seq<char>>;

/// The PEM `PRIVATE KEY` text that `EncodePrivateKey::to_pkcs8_pem` writes,
/// with `\n` line endings, for the key that `RsaPrivateKey::from_pkcs8_pem`
/// reads from `pem`; `None` when reading or writing fails.
pub uninterp spec fn pkcs8_pem_written(pem: Seq<char>) -> Option<Seq<char>>;

/// The PEM `PUBLIC KEY` text, as `to_public_key_pem` writes it with `\n`
/// line endings, of the public half (`RsaPublicKey::from`) of the private
/// key that `private_pem` holds; `None` when there is none.
pub uninterp spec fn rsa_public_pem(private_pem: Seq<char>) -> Option<Seq<char>>;

/// The length in bytes of the modulus (`PublicKeyParts::size`) of the
/// public key that `public_pem` holds.
pub uninterp spec fn rsa_modulus_len(public_pem: Seq<char>) -> nat;

/// Whether `ciphertext` is one of the ciphertexts that
/// `RsaPublicKey::encrypt` with `Oaep::new::<Sha256>()` can give for
/// `message` under the public key of `public_pem`, for some random seed.
pub uninterp spec fn rsa_oaep_sha256_ciphertext(
    public_pem: Seq<char>,
    message: Seq<u8>,
    ciphertext: Seq<u8>,
) -> bool;

/// What `RsaPrivateKey::decrypt` with `Oaep::new::<Sha256>()` gives back
/// for `ciphertext` under the private key that `private_pem` holds; `None`
/// when the key cannot be read or the ciphertext does not open.
pub uninterp spec fn rsa_oaep_sha256_decrypt(private_pem: Seq<char>, ciphertext: Seq<u8>) -> Option<
    Seq<u8>,
>;

/// What holds of the two texts of a freshly generated key pair: each is
/// read back as a key and written again unchanged, the public text is that
/// of the public half of the private key, the modulus has 256 bytes, and
/// every OAEP ciphertext made under the public text opens under the private
/// text to its message.
pub open spec fn rsa_key_pair(private_pem: Seq<char>, public_pem: Seq<char>) -> bool {
    &&& pkcs8_pem_accepts(private_pem)
    &&& spki_pem_accepts(public_pem)
    &&& pkcs8_pem_written(private_pem) == Some(private_pem)
    &&& spki_pem_written(public_pem) == Some(public_pem)
    &&& rsa_public_pem(private_pem) == Some(public_pem)
    &&& rsa_modulus_len(public_pem) == 256
    &&& is_pem_document(private_pem, private_key_label())
    &&& is_pem_document(public_pem, public_key_label())
    &&& forall|m: Seq<u8>, c: Seq<u8>|
        #[trigger] rsa_oaep_sha256_ciphertext(public_pem, m, c) ==> rsa_oaep_sha256_decrypt(
            private_pem,
            c,
        ) == Some(m)
}

/// `RsaPrivateKey::new` with 2048 bits and the thread's generator, then the
/// key written by `to_pkcs8_pem` and its public half (`RsaPublicKey::from`)
/// by `to_public_key_pem`, both with `\n` line endings. Generation draws two
/// distinct primes until their product has exactly 2048 bits, so it
/// succeeds; the inverse of one prime modulo the other then exists, so the
/// PKCS#8 writer succeeds, and writing is deterministic, so reading a text
/// back and writing it again gives the same text.
#[verifier::external_body]
fn rsa_generate_pems() -> (r: Result<(String, String), RsaError>)
    ensures
        r is Ok,
        r matches Ok((k, p)) ==> pkcs8_pem_accepts(k@) && spki_pem_accepts(p@),
        r matches Ok((k, p)) ==> pkcs8_pem_written(k@) == Some(k@) && spki_pem_written(p@) == Some(p@),
        r matches Ok((k, p)) ==> rsa_public_pem(k@) == Some(p@) && rsa_modulus_len(p@) == 256,
        r matches Ok((k, p)) ==> is_pem_document(k@, private_key_label()) && is_pem_document(
            p@,
            public_key_label(),
        ),
        r matches Ok((k, p)) ==> forall|m: Seq<u8>, c: Seq<u8>|
            #[trigger] rsa_oaep_sha256_ciphertext(p@, m, c) ==> rsa_oaep_sha256_decrypt(k@, c) == Some(m),
{
    let key = match rsa::RsaPrivateKey::new(&mut rand::thread_rng(), 2048) {
        Ok(k) => k,
        Err(_) => return Err(RsaError::Crypto),
    };
    let private_pem = match key.to_pkcs8_pem(LineEnding::LF) {
        Ok(s) => s.to_string(),
        Err(_) => return Err(RsaError::KeyEncoding),
    };
    match rsa::RsaPublicKey::from(&key).to_public_key_pem(LineEnding::LF) {
        Ok(public_pem) => Ok((private_pem, public_pem)),
        Err(_) => Err(RsaError::KeyEncoding),
    }
}

/// Whether `RsaPublicKey::from_public_key_pem` reads a key from `pem`.
#[verifier::external_body]
fn spki_pem_read(pem: &str) -> (r: bool)
    ensures
        r == spki_pem_accepts(pem@),
{
    rsa::RsaPublicKey::from_public_key_pem(pem).is_ok()
}

/// Whether `RsaPrivateKey::from_pkcs8_pem` reads a key from `pem`.
#[verifier::external_body]
fn pkcs8_pem_read(pem: &str) -> (r: bool)
    ensures
        r == pkcs8_pem_accepts(pem@),
{
    rsa::RsaPrivateKey::from_pkcs8_pem(pem).is_ok()
}

/// The key of `pem` read by `RsaPublicKey::from_public_key_pem` and
/// written again by `to_public_key_pem` with `\n` line endings: a PEM
/// document labelled `PUBLIC KEY` (`pem_rfc7468::encode_string`, base64
/// wrapped at 64 columns).
#[verifier::external_body]
fn spki_pem_write(pem: &str) -> (r: Result<String, RsaError>)
    ensures
        text_of(r) == spki_pem_written(pem@),
        r matches Ok(s) ==> is_pem_document(s@, public_key_label()),
        r matches Err(e) ==> e == RsaError::KeyEncoding,
{
    match rsa::RsaPublicKey::from_public_key_pem(pem) {
        Ok(k) => match k.to_public_key_pem(LineEnding::LF) {
            Ok(s) => Ok(s),
            Err(_) => Err(RsaError::KeyEncoding),
        },
        Err(_) => Err(RsaError::KeyEncoding),
    }
}

/// The key of `pem` read by `RsaPrivateKey::from_pkcs8_pem` and written
/// again by `to_pkcs8_pem` with `\n` line endings: a PEM document labelled
/// `PRIVATE KEY`.
#[verifier::external_body]
fn pkcs8_pem_write(pem: &str) -> (r: Result<String, RsaError>)
    ensures
        text_of(r) == pkcs8_pem_written(pem@),
        r matches Ok(s) ==> is_pem_document(s@, private_key_label()),
        r matches Err(e) ==> e == RsaError::KeyEncoding,
{
    match rsa::RsaPrivateKey::from_pkcs8_pem(pem) {
        Ok(k) => match k.to_pkcs8_pem(LineEnding::LF) {
            Ok(s) => Ok(s.to_string()),
            Err(_) => Err(RsaError::KeyEncoding),
        },
        Err(_) => Err(RsaError::KeyEncoding),
    }
}

/// `RsaPublicKey::encrypt` with `Oaep::new::<Sha256>()` and the thread's
/// generator, under the key that `from_public_key_pem` reads from `pem`.
/// A key that was read passed the crate's public-key checks, so the only
/// refusal left is a message longer than the modulus less 66 bytes (twice
/// the SHA-256 length, and 2); the ciphertext is padded to the modulus
/// length. Which ciphertext comes out depends on the random seed.
#[verifier::external_body]
fn oaep_encrypt(pem: &str, data: &[u8]) -> (r: Result<Vec<u8>, RsaError>)
    ensures
        !spki_pem_accepts(pem@) ==> r matches Err(RsaError::KeyEncoding),
        spki_pem_accepts(pem@) ==> (r is Ok) == (data@.len() + 66 <= rsa_modulus_len(pem@)),
        spki_pem_accepts(pem@) && r is Err ==> r matches Err(RsaError::Crypto),
        r matches Ok(c) ==> c@.len() == rsa_modulus_len(pem@) && rsa_oaep_sha256_ciphertext(
            pem@,
            data@,
            c@,
        ),
{
    match rsa::RsaPublicKey::from_public_key_pem(pem) {
        Ok(k) => match k.encrypt(&mut rand::thread_rng(), rsa::Oaep::new::<sha2::Sha256>(), data) {
            Ok(c) => Ok(c),
            Err(_) => Err(RsaError::Crypto),
        },
        Err(_) => Err(RsaError::KeyEncoding),
    }
}

/// `RsaPrivateKey::decrypt` with `Oaep::new::<Sha256>()` (no blinding, no
/// random source) under the key that `from_pkcs8_pem` reads from `pem`.
#[verifier::external_body]
fn oaep_decrypt(pem: &str, ciphertext: &[u8]) -> (r: Result<Vec<u8>, RsaError>)
    ensures
        !pkcs8_pem_accepts(pem@) ==> r matches Err(RsaError::KeyEncoding),
        pkcs8_pem_accepts(pem@) ==> ok_bytes(r) == rsa_oaep_sha256_decrypt(pem@, ciphertext@),
        pkcs8_pem_accepts(pem@) && r is Err ==> r matches Err(RsaError::Crypto),
{
    match rsa::RsaPrivateKey::from_pkcs8_pem(pem) {
        Ok(k) => match k.decrypt(rsa::Oaep::new::<sha2::Sha256>(), ciphertext) {
            Ok(m) => Ok(m),
            Err(_) => Err(RsaError::Crypto),
        },
        Err(_) => Err(RsaError::KeyEncoding),
    }
}

/// The text of a successful result.
pub open spec fn text_of<E>(r: Result<String, E>) -> Option<Seq<char>> {
    match r {
        Ok(s) => Some(s@),
        Err(_) => None,
    }
}

/// A result with its bytes taken by view.
pub open spec fn bytes_view(r: Result<Vec<u8>, RsaError>) -> Result<Seq<u8>, RsaError> {
    match r {
        Ok(v) => Ok(v@),
        Err(e) => Err(e),
    }
}

/// A result with its text taken by view.
pub open spec fn string_view(r: Result<String, RsaError>) -> Result<Seq<char>, RsaError> {
    match r {
        Ok(s) => Ok(s@),
        Err(e) => Err(e),
    }
}

/// What opening `ciphertext` under `private_pem` gives: the plaintext, or
/// `Crypto` when it does not open.
pub open spec fn oaep_opened(private_pem: Seq<char>, ciphertext: Seq<u8>) -> Result<Seq<u8>, RsaError> {
    match rsa_oaep_sha256_decrypt(private_pem, ciphertext) {
        Some(m) => Ok(m),
        None => Err(RsaError::Crypto),
    }
}

/// What opening `ciphertext` under `private_pem` gives as text: the text the
/// plaintext encodes, `Utf8` when it is not UTF-8, or `Crypto` when it does
/// not open.
pub open spec fn oaep_opened_text(private_pem: Seq<char>, ciphertext: Seq<u8>) -> Result<
    Seq<char>,
    RsaError,
> {
    match rsa_oaep_sha256_decrypt(private_pem, ciphertext) {
        Some(m) => if valid_utf8(m) {
            Ok(decode_utf8(m))
        } else {
            Err(RsaError::Utf8)
        },
        None => Err(RsaError::Crypto),
    }
}

/// A private RSA key, held as the PEM `PRIVATE KEY` (PKCS#8) text it was
/// made or read from.
#[derive(Debug)]
pub struct RsaPrivateKey {
    pem: String,
}

/// A public RSA key, held as the PEM `PUBLIC KEY` (SPKI) text it was made
/// or read from.
#[derive(Debug)]
pub struct RsaPublicKey {
    pem: String,
}

impl RsaPrivateKey {
    /// The key's PEM text.
    pub closed spec fn text(self) -> Seq<char> {
        self.pem@
    }

    #[verifier::type_invariant]
    spec fn readable(self) -> bool {
        pkcs8_pem_accepts(self.pem@)
    }
}

impl RsaPublicKey {
    /// The key's PEM text.
    pub closed spec fn text(self) -> Seq<char> {
        self.pem@
    }

    #[verifier::type_invariant]
    spec fn readable(self) -> bool {
        spki_pem_accepts(self.pem@)
    }
}

/// OAEP round trip: for a key pair as `RSA::generate_rsa_key_pair` makes
/// it, every ciphertext that `RSA::encrypt` can make of `message` under the
/// public text opens under the private text to `message`, and, where the
/// message is UTF-8, to the text it encodes.
pub proof fn oaep_round_trip(
    private_pem: Seq<char>,
    public_pem: Seq<char>,
    message: Seq<u8>,
    ciphertext: Seq<u8>,
)
    requires
        rsa_key_pair(private_pem, public_pem),
        rsa_oaep_sha256_ciphertext(public_pem, message, ciphertext),
    ensures
        oaep_opened(private_pem, ciphertext) == Ok::<Seq<u8>, RsaError>(message),
        valid_utf8(message) ==> oaep_opened_text(private_pem, ciphertext) == Ok::<
            Seq<char>,
            RsaError,
        >(decode_utf8(message)),
{
}

/// The PEM text of `bytes` under `label`: their base64 text cut into lines
/// of 64 characters between the armor lines.
pub open spec fn bytes_pem(bytes: Seq<u8>, label: Seq<char>) -> Seq<char> {
    pem_text(base64_encode(bytes), label)
}

/// RSA-OAEP with SHA-256, and PEM framing of key bytes.
pub struct RSA;

impl RSA {
    /// The bytes that the body of the PEM text `pem` stands for in base64.
    pub fn pem_to_bytes(pem: &str) -> (r: Result<Vec<u8>, Base64Error>)
        ensures
            ok_bytes(r) == base64_decode(pem_body(pem@)),
            forall|b: Seq<u8>| base64_encode(b) == pem_body(pem@) ==> ok_bytes(r) == Some(b),
            forall|b: Seq<u8>, label: Seq<char>|
                #![trigger bytes_pem(b, label)]
                lacks(label, '\n') && pem@ == bytes_pem(b, label) && (forall|i: int|
                    0 <= i < base64_encode(b).len() ==> #[trigger] is_base64_symbol(base64_encode(b)[i]))
                    ==> ok_bytes(r) == Some(b),
    {
        let body = pem_body_of(pem);
        let r = base64_decode_exec(body.as_str());
        proof {
            assert forall|b: Seq<u8>, label: Seq<char>|
                #![trigger bytes_pem(b, label)]
                lacks(label, '\n') && pem@ == bytes_pem(b, label) && (forall|i: int|
                    0 <= i < base64_encode(b).len() ==> #[trigger] is_base64_symbol(base64_encode(b)[i]))
                    implies ok_bytes(r) == Some(b) by {
                lemma_pem_body_of_pem_text(base64_encode(b), label);
            }
        }
        r
    }

    /// The PEM text of `bytes` with label `key_type`: the base64 text of the
    /// bytes in lines of 64 characters between `-----BEGIN <key_type>-----`
    /// and `-----END <key_type>-----`.
    pub fn bytes_to_pem(bytes: &[u8], key_type: &str) -> (r: String)
        ensures
            r@ == bytes_pem(bytes@, key_type@),
            forall|i: int|
                0 <= i < base64_encode(bytes@).len() ==> #[trigger] is_base64_symbol(
                    base64_encode(bytes@)[i],
                ),
    {
        let text = base64_encode_exec(bytes);
        pem_text_of(text.as_str(), key_type)
    }

    /// A fresh 2048-bit key pair: (private key, public key). Generation
    /// always succeeds, and the public key is the public half of the
    /// private one.
    pub fn generate_rsa_key_pair() -> (r: Result<(RsaPrivateKey, RsaPublicKey), RsaError>)
        ensures
            r matches Ok((k, p)) && rsa_key_pair(k.text(), p.text()),
    {
        match rsa_generate_pems() {
            Ok((private_pem, public_pem)) => Ok(
                (RsaPrivateKey { pem: private_pem }, RsaPublicKey { pem: public_pem }),
            ),
            Err(e) => Err(e),
        }
    }

    /// The public key as a PEM `PUBLIC KEY` (SPKI) text with `\n` line
    /// endings.
    pub fn export_public_key_pem(key: &RsaPublicKey) -> (r: Result<String, RsaError>)
        ensures
            text_of(r) == spki_pem_written(key.text()),
            r matches Ok(s) ==> is_pem_document(s@, public_key_label()),
            r matches Err(e) ==> e == RsaError::KeyEncoding,
    {
        spki_pem_write(key.pem.as_str())
    }

    /// The private key as a PEM `PRIVATE KEY` (PKCS#8) text with `\n` line
    /// endings.
    pub fn export_private_key_pem(key: &RsaPrivateKey) -> (r: Result<String, RsaError>)
        ensures
            text_of(r) == pkcs8_pem_written(key.text()),
            r matches Ok(s) ==> is_pem_document(s@, private_key_label()),
            r matches Err(e) ==> e == RsaError::KeyEncoding,
    {
        pkcs8_pem_write(key.pem.as_str())
    }

    /// The public key of a PEM `PUBLIC KEY` (SPKI) text.
    pub fn import_public_key_pem(pem: &str) -> (r: Result<RsaPublicKey, RsaError>)
        ensures
            (r is Ok) == spki_pem_accepts(pem@),
            r matches Ok(k) ==> k.text() == pem@,
            r matches Err(e) ==> e == RsaError::KeyEncoding,
    {
        if spki_pem_read(pem) {
            Ok(RsaPublicKey { pem: pem.to_owned() })
        } else {
            Err(RsaError::KeyEncoding)
        }
    }

    /// The private key of a PEM `PRIVATE KEY` (PKCS#8) text.
    pub fn import_private_key_pem(pem: &str) -> (r: Result<RsaPrivateKey, RsaError>)
        ensures
            (r is Ok) == pkcs8_pem_accepts(pem@),
            r matches Ok(k) ==> k.text() == pem@,
            r matches Err(e) ==> e == RsaError::KeyEncoding,
    {
        if pkcs8_pem_read(pem) {
            Ok(RsaPrivateKey { pem: pem.to_owned() })
        } else {
            Err(RsaError::KeyEncoding)
        }
    }

    /// Encrypts `data` under the public key of `public_key_pem` with
    /// RSA-OAEP (SHA-256) and gives the ciphertext in standard base64. It
    /// succeeds exactly when the key text is read and `data` is at most the
    /// modulus length less 66 bytes; the ciphertext has the modulus length
    /// and is one that OAEP can make of `data`.
    pub fn encrypt(data: &[u8], public_key_pem: &str) -> (r: Result<String, RsaError>)
        ensures
            !spki_pem_accepts(public_key_pem@) ==> r == Err::<String, RsaError>(RsaError::KeyEncoding),
            spki_pem_accepts(public_key_pem@) ==> (r is Ok) == (data@.len() + 66 <= rsa_modulus_len(
                public_key_pem@,
            )),
            spki_pem_accepts(public_key_pem@) && r is Err ==> r == Err::<String, RsaError>(
                RsaError::Crypto,
            ),
            r matches Ok(s) ==> exists|c: Seq<u8>|
                #![trigger base64_encode(c)]
                s@ == base64_encode(c) && c.len() == rsa_modulus_len(public_key_pem@)
                    && rsa_oaep_sha256_ciphertext(public_key_pem@, data@, c),
    {
        let encrypted = match oaep_encrypt(public_key_pem, data) {
            Ok(c) => c,
            Err(e) => return Err(e),
        };
        let text = base64_encode_exec(encrypted.as_slice());
        Ok(text)
    }

    /// Decrypts the base64 ciphertext `encrypted_b64` with the private key
    /// of `private_key_pem` (RSA-OAEP, SHA-256): the key is read first, then
    /// the base64, then the ciphertext is opened.
    pub fn decrypt_to_bytes(encrypted_b64: &str, private_key_pem: &str) -> (r: Result<Vec<u8>, RsaError>)
        ensures
            !pkcs8_pem_accepts(private_key_pem@) ==> r == Err::<Vec<u8>, RsaError>(RsaError::KeyEncoding),
            pkcs8_pem_accepts(private_key_pem@) ==> (r matches Err(RsaError::Base64(_))) == (base64_decode(
                encrypted_b64@,
            ) is None),
            pkcs8_pem_accepts(private_key_pem@) ==> (base64_decode(encrypted_b64@) matches Some(c)
                ==> bytes_view(r) == oaep_opened(private_key_pem@, c)),
            forall|c: Seq<u8>|
                base64_encode(c) == encrypted_b64@ && pkcs8_pem_accepts(private_key_pem@) ==> bytes_view(r)
                    == #[trigger] oaep_opened(private_key_pem@, c),
    {
        if !pkcs8_pem_read(private_key_pem) {
            return Err(RsaError::KeyEncoding);
        }
        let encrypted = match base64_decode_exec(encrypted_b64) {
            Ok(v) => v,
            Err(e) => return Err(RsaError::Base64(e)),
        };
        oaep_decrypt(private_key_pem, encrypted.as_slice())
    }

    /// The text that decrypted bytes encode; `Utf8` when they are not
    /// valid UTF-8.
    pub fn plaintext_to_string(bytes: Vec<u8>) -> (r: Result<String, RsaError>)
        ensures
            (r is Ok) == valid_utf8(bytes@),
            r matches Ok(s) ==> s@ == decode_utf8(bytes@),
            r matches Err(e) ==> e == RsaError::Utf8,
    {
        match utf8_string(bytes) {
            Ok(s) => Ok(s),
            Err(_) => Err(RsaError::Utf8),
        }
    }

    /// Decrypts as `decrypt_to_bytes` does and reads the plaintext as UTF-8.
    pub fn decrypt_to_string(encrypted_b64: &str, private_key_pem: &str) -> (r: Result<String, RsaError>)
        ensures
            !pkcs8_pem_accepts(private_key_pem@) ==> r == Err::<String, RsaError>(RsaError::KeyEncoding),
            pkcs8_pem_accepts(private_key_pem@) ==> (r matches Err(RsaError::Base64(_))) == (base64_decode(
                encrypted_b64@,
            ) is None),
            pkcs8_pem_accepts(private_key_pem@) ==> (base64_decode(encrypted_b64@) matches Some(c)
                ==> string_view(r) == oaep_opened_text(private_key_pem@, c)),
            forall|c: Seq<u8>|
                base64_encode(c) == encrypted_b64@ && pkcs8_pem_accepts(private_key_pem@) ==> string_view(r)
                    == #[trigger] oaep_opened_text(private_key_pem@, c),
    {
        let opened = Self::decrypt_to_bytes(encrypted_b64, private_key_pem);
        let r = match opened {
            Ok(v) => Self::plaintext_to_string(v),
            Err(e) => Err(e),
        };
        proof {
            assert forall|c: Seq<u8>|
                base64_encode(c) == encrypted_b64@ && pkcs8_pem_accepts(private_key_pem@) implies string_view(r)
                    == #[trigger] oaep_opened_text(private_key_pem@, c) by {
                assert(bytes_view(opened) == oaep_opened(private_key_pem@, c));
            }
        }
        r
    }
}

} // verus!
