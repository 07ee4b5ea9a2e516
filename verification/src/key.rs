//! The player's secret key. Paths of local files are encrypted with it
//! before they are shared, so that other players only see opaque bytes and
//! can hand them back when a track is to be played.

use vstd::prelude::*;
use vstd::utf8::{decode_utf8, encode_utf8, valid_utf8};
use aes_gcm_siv::aead::generic_array::GenericArray;
use aes_gcm_siv::aead::rand_core::RngCore;
use aes_gcm_siv::aead::{Aead, KeyInit, OsRng};
use aes_gcm_siv::{Aes256GcmSiv, Nonce};

verus! {

#[verifier::external_type_specification]
#[verifier::external_body]
pub struct ExAeadError(aes_gcm_siv::Error);

#[verifier::external_type_specification]
#[verifier::external_body]
pub struct ExFromUtf8Error(std::string::FromUtf8Error);

/// Length of a key in bytes (AES-256).
pub const KEY_LEN: usize = 32;

/// Length of the authentication tag that ends every ciphertext.
pub const TAG_LEN: usize = 16;

/// Longest plaintext that AES-GCM-SIV encrypts (2^36 bytes).
pub const MAX_PLAINTEXT: u64 = 0x10_0000_0000;

/// The nonce with which paths are encrypted, the bytes of `12bytestring`.
/// Reusing a nonce only reveals which paths are equal, which the shared
/// track metadata reveals anyway.
pub open spec fn path_nonce() -> Seq<u8> {
    seq![0x31u8, 0x32, 0x62, 0x79, 0x74, 0x65, 0x73, 0x74, 0x72, 0x69, 0x6e, 0x67]
}

/// The ciphertext, authentication tag included, that AES-256-GCM-SIV makes
/// of `plaintext` under `key` and `nonce`, with no associated data.
pub uninterp spec fn aes_gcm_siv_seal(key: Seq<u8>, nonce: Seq<u8>, plaintext: Seq<u8>) -> Seq<u8>;

/// No plaintext but `plaintext` seals to `ciphertext` under `key` and
/// `nonce`.
pub open spec fn sealed_only_from(key: Seq<u8>, nonce: Seq<u8>, ciphertext: Seq<u8>, plaintext: Seq<u8>) -> bool {
    forall|p: Seq<u8>| #[trigger] aes_gcm_siv_seal(key, nonce, p) == ciphertext ==> p == plaintext
}

/// `Aes256GcmSiv::new(key).encrypt(nonce, plaintext)` (aes-gcm-siv). Trusted:
/// that it fails exactly on plaintexts longer than `P_MAX`, and that
/// otherwise it returns the ciphertext named by `aes_gcm_siv_seal`, which is
/// the plaintext's length plus the 16-byte tag long, and which no other
/// plaintext seals to under the same key and nonce (the tag is a function of
/// the plaintext and fixes the key stream that the rest is XORed with).
#[verifier::external_body]
fn seal(key: &[u8], nonce: &[u8], plaintext: &[u8]) -> (res: Result<Vec<u8>, aes_gcm_siv::Error>)
    requires
        key@.len() == KEY_LEN,
        nonce@.len() == 12,
    ensures
        match res {
            Ok(c) => plaintext@.len() <= MAX_PLAINTEXT && c@ == aes_gcm_siv_seal(key@, nonce@, plaintext@)
                && c@.len() == plaintext@.len() + TAG_LEN && sealed_only_from(key@, nonce@, c@, plaintext@),
            Err(_) => plaintext@.len() > MAX_PLAINTEXT,
        },
{
    let cipher = Aes256GcmSiv::new(GenericArray::from_slice(key));
    cipher.encrypt(Nonce::from_slice(nonce), plaintext)
}

/// `Aes256GcmSiv::new(key).decrypt(nonce, ciphertext)` (aes-gcm-siv).
/// Trusted: what it returns seals back to the ciphertext (the tag was
/// checked against it) and is the only plaintext that does, and a ciphertext
/// that `seal` made of a plaintext is opened to that plaintext. Which error a forged ciphertext gives is not
/// distinguished: the crate has only one.
#[verifier::external_body]
fn open_sealed(key: &[u8], nonce: &[u8], ciphertext: &[u8]) -> (res: Result<Vec<u8>, aes_gcm_siv::Error>)
    requires
        key@.len() == KEY_LEN,
        nonce@.len() == 12,
    ensures
        match res {
            Ok(q) => aes_gcm_siv_seal(key@, nonce@, q@) == ciphertext@ && forall|p: Seq<u8>|
                #[trigger] aes_gcm_siv_seal(key@, nonce@, p) == ciphertext@ ==> q@ == p,
            Err(_) => forall|p: Seq<u8>|
                p.len() <= MAX_PLAINTEXT ==> #[trigger] aes_gcm_siv_seal(key@, nonce@, p) != ciphertext@,
        },
{
    let cipher = Aes256GcmSiv::new(GenericArray::from_slice(key));
    cipher.decrypt(Nonce::from_slice(nonce), ciphertext)
}

/// `OsRng.try_fill_bytes` (rand_core, through aes-gcm-siv) on a buffer of
/// `n` zero bytes: `n` bytes from the operating system's random number
/// generator, or `None` where that generator reports an error. Nothing is
/// said of the bytes but their number.
#[verifier::external_body]
pub(crate) fn random_bytes(n: usize) -> (bytes: Option<Vec<u8>>)
    ensures
        bytes matches Some(b) ==> b@.len() == n,
{
    let mut buf = vec![0u8; n];
    match OsRng.try_fill_bytes(&mut buf) {
        Ok(()) => Some(buf),
        Err(_) => None,
    }
}

/// `String::from_utf8` (std): succeeds exactly on valid UTF-8, with the
/// characters that the bytes encode.
#[verifier::external_body]
fn string_from_utf8(bytes: Vec<u8>) -> (res: Result<String, std::string::FromUtf8Error>)
    ensures
        res is Ok <==> valid_utf8(bytes@),
        res matches Ok(s) ==> s@ == decode_utf8(bytes@),
{
    String::from_utf8(bytes)
}

fn path_nonce_bytes() -> (n: Vec<u8>)
    ensures
        n@ == path_nonce(),
{
    let n: Vec<u8> = vec![0x31u8, 0x32, 0x62, 0x79, 0x74, 0x65, 0x73, 0x74, 0x72, 0x69, 0x6e, 0x67];
    assert(n@ =~= path_nonce());
    n
}

/// Why text is not the hex form of some bytes (as `hex::FromHexError`).
#[derive(Debug, Clone, Copy, PartialEq, Eq, Structural)]
pub enum HexError {
    InvalidHexCharacter { c: char, index: usize },
    OddLength,
    InvalidStringLength,
}

/// The value of a hex digit (either case), if the byte is one.
pub open spec fn hex_digit_value(b: u8) -> Option<int> {
    if 0x30 <= b && b <= 0x39 {
        Some(b - 0x30)
    } else if 0x61 <= b && b <= 0x66 {
        Some(b - 0x61 + 10)
    } else if 0x41 <= b && b <= 0x46 {
        Some(b - 0x41 + 10)
    } else {
        None
    }
}

/// What `hex::decode` makes of `text`: an odd length is refused first, then
/// the first byte that is no hex digit; otherwise each pair of digits is a
/// byte, the first digit the high one.
pub open spec fn hex_decoding(text: Seq<u8>) -> Result<Seq<u8>, HexError> {
    if text.len() % 2 != 0 {
        Err(HexError::OddLength)
    } else if exists|i: int| 0 <= i < text.len() && hex_digit_value(#[trigger] text[i]) is None {
        let i = choose|i: int|
            0 <= i < text.len() && hex_digit_value(#[trigger] text[i]) is None && forall|j: int|
                0 <= j < i ==> hex_digit_value(#[trigger] text[j]) is Some;
        Err(HexError::InvalidHexCharacter { c: text[i] as char, index: i as usize })
    } else {
        Ok(
            Seq::new(
                (text.len() / 2) as nat,
                |k: int| (hex_digit_value(text[2 * k])->0 * 16 + hex_digit_value(text[2 * k + 1])->0) as u8,
            ),
        )
    }
}

/// The lower-case hex digit for `d` (0 to 15).
pub open spec fn hex_digit(d: int) -> char {
    if d < 10 {
        (0x30 + d) as char
    } else {
        (0x61 + d - 10) as char
    }
}

/// What `hex::encode` makes of `bytes`: two lower-case digits per byte, the
/// high one first.
pub open spec fn hex_encoding(bytes: Seq<u8>) -> Seq<char> {
    Seq::new(
        (2 * bytes.len()) as nat,
        |i: int|
            if i % 2 == 0 {
                hex_digit(bytes[i / 2] as int / 16)
            } else {
                hex_digit(bytes[i / 2] as int % 16)
            },
    )
}

/// `hex::decode` (hex), its error converted variant by variant. Trusted: it
/// returns what `hex_decoding` describes.
#[verifier::external_body]
fn hex_decode(text: &[u8]) -> (res: Result<Vec<u8>, HexError>)
    ensures
        match res {
            Ok(v) => hex_decoding(text@) == Ok::<Seq<u8>, HexError>(v@),
            Err(e) => hex_decoding(text@) == Err::<Seq<u8>, HexError>(e),
        },
{
    match hex::decode(text) {
        Ok(v) => Ok(v),
        Err(hex::FromHexError::InvalidHexCharacter { c, index }) => Err(HexError::InvalidHexCharacter { c, index }),
        Err(hex::FromHexError::OddLength) => Err(HexError::OddLength),
        Err(hex::FromHexError::InvalidStringLength) => Err(HexError::InvalidStringLength),
    }
}

/// `hex::encode` (hex). Trusted: it returns what `hex_encoding` describes.
#[verifier::external_body]
fn hex_encode(bytes: &[u8]) -> (text: String)
    ensures
        text@ == hex_encoding(bytes@),
{
    hex::encode(bytes)
}

/// The bytes that hex text (as stored in the key file) stands for.
pub fn decode_hex(text: &str) -> (res: Result<Vec<u8>, HexError>)
    ensures
        match res {
            Ok(v) => hex_decoding(encode_utf8(text@)) == Ok::<Seq<u8>, HexError>(v@),
            Err(e) => hex_decoding(encode_utf8(text@)) == Err::<Seq<u8>, HexError>(e),
        },
{
    hex_decode(text.as_bytes())
}

proof fn lemma_hex_digit_roundtrip(d: int)
    requires
        0 <= d < 16,
    ensures
        '\0' <= hex_digit(d) <= '\u{7f}',
        hex_digit_value(hex_digit(d) as u8) == Some(d),
{
}

/// Writing bytes in hex and reading the hex back gives the same bytes: a
/// key saved to the key file is the key loaded from it.
pub proof fn law_hex_roundtrip(bytes: Seq<u8>)
    ensures
        hex_decoding(encode_utf8(hex_encoding(bytes))) == Ok::<Seq<u8>, HexError>(bytes),
{
    let text = hex_encoding(bytes);
    assert forall|i: int| 0 <= i < text.len() implies '\0' <= #[trigger] text[i] <= '\u{7f}' by {
        if i % 2 == 0 {
            lemma_hex_digit_roundtrip(bytes[i / 2] as int / 16);
        } else {
            lemma_hex_digit_roundtrip(bytes[i / 2] as int % 16);
        }
    }
    vstd::utf8::is_ascii_chars_encode_utf8(text);
    let b = encode_utf8(text);
    assert forall|i: int| 0 <= i < b.len() implies #[trigger] hex_digit_value(b[i]) == Some(
        if i % 2 == 0 {
            bytes[i / 2] as int / 16
        } else {
            bytes[i / 2] as int % 16
        },
    ) by {
        assert(b[i] == text[i] as u8);
        if i % 2 == 0 {
            lemma_hex_digit_roundtrip(bytes[i / 2] as int / 16);
        } else {
            lemma_hex_digit_roundtrip(bytes[i / 2] as int % 16);
        }
    }
    assert(b.len() % 2 == 0);
    assert(!(exists|i: int| 0 <= i < b.len() && hex_digit_value(#[trigger] b[i]) is None));
    let decoded = Seq::new(
        (b.len() / 2) as nat,
        |k: int| (hex_digit_value(b[2 * k])->0 * 16 + hex_digit_value(b[2 * k + 1])->0) as u8,
    );
    assert forall|k: int| 0 <= k < bytes.len() implies decoded[k] == bytes[k] by {
        assert(hex_digit_value(b[2 * k]) == Some(bytes[k] as int / 16));
        assert(hex_digit_value(b[2 * k + 1]) == Some(bytes[k] as int % 16));
    }
    assert(decoded =~= bytes);
}

/// What `encrypt_path` made of a path decrypts back to that path: the
/// ciphertext meets what `decrypt_path` asks for (so `decrypt_path` and
/// `try_decrypt_path` give the path back), and no other path encrypts to
/// it. Equal paths give equal ciphertexts, since the nonce is fixed; the
/// ciphertexts reveal which paths are equal and nothing more of them.
pub proof fn law_encrypted_path_roundtrip(key: Seq<u8>, path: Seq<char>, ciphertext: Seq<u8>)
    requires
        ciphertext == encrypted_path(key, path),
        sealed_only_from(key, path_nonce(), ciphertext, encode_utf8(path)),
    ensures
        opens_to_text(key, ciphertext),
        forall|other: Seq<char>| #[trigger] encrypted_path(key, other) == ciphertext <==> other == path,
{
    vstd::utf8::encode_utf8_valid_utf8(path);
    assert forall|other: Seq<char>| #[trigger] encrypted_path(key, other) == ciphertext implies other == path by {
        assert(aes_gcm_siv_seal(key, path_nonce(), encode_utf8(other)) == ciphertext);
        vstd::utf8::encode_utf8_decode_utf8(other);
        vstd::utf8::encode_utf8_decode_utf8(path);
    }
}

/// A 256-bit AES-GCM-SIV key.
pub struct Key {
    bytes: Vec<u8>,
}

impl View for Key {
    type V = Seq<u8>;

    closed spec fn view(&self) -> Seq<u8> {
        self.bytes@
    }
}

/// Every plaintext that seals to `data` under `key` and the path nonce is
/// UTF-8 text.
pub open spec fn opens_to_text(key: Seq<u8>, data: Seq<u8>) -> bool {
    forall|p: Seq<u8>| #[trigger] aes_gcm_siv_seal(key, path_nonce(), p) == data ==> valid_utf8(p)
}

/// What decrypting `data` as a path under `key` gives (see
/// `Key::try_decrypt_path`): `None` where the bytes decrypt to something that
/// is not UTF-8; a path whose encryption the bytes are; or an error where no
/// path encrypts to them. A path that encrypts to them is what comes out.
pub open spec fn path_decryption(
    key: Seq<u8>,
    data: Seq<u8>,
    res: Option<Result<String, aes_gcm_siv::Error>>,
) -> bool {
    &&& match res {
        None => exists|p: Seq<u8>| #[trigger] aes_gcm_siv_seal(key, path_nonce(), p) == data && !valid_utf8(p),
        Some(Ok(s)) => encrypted_path(key, s@) == data,
        Some(Err(_)) => forall|s: Seq<char>|
            encode_utf8(s).len() <= MAX_PLAINTEXT ==> #[trigger] encrypted_path(key, s) != data,
    }
    &&& forall|s: Seq<char>|
        encode_utf8(s).len() <= MAX_PLAINTEXT && #[trigger] encrypted_path(key, s) == data ==> (res matches Some(
            Ok(t),
        ) && t@ == s)
}

/// The ciphertext of a path under a key, as `encrypt_path` makes it.
pub open spec fn encrypted_path(key: Seq<u8>, path: Seq<char>) -> Seq<u8> {
    aes_gcm_siv_seal(key, path_nonce(), encode_utf8(path))
}

impl Key {
    #[verifier::type_invariant]
    spec fn key_length(self) -> bool {
        self.bytes@.len() == KEY_LEN
    }

    /// The key with these bytes.
    pub fn from_bytes(bytes: Vec<u8>) -> (key: Key)
        requires
            bytes@.len() == KEY_LEN,
        ensures
            key@ == bytes@,
    {
        Key { bytes }
    }

    /// A fresh random key, drawn from the operating system's random number
    /// generator; `None` where that generator fails.
    pub fn generate() -> (key: Option<Key>)
        ensures
            key matches Some(k) ==> k@.len() == KEY_LEN,
    {
        match random_bytes(KEY_LEN) {
            Some(bytes) => Some(Key { bytes }),
            None => None,
        }
    }

    /// The key in hex, as it is stored in the key file.
    pub fn to_hex(&self) -> (text: String)
        ensures
            text@ == hex_encoding(self@),
    {
        hex_encode(self.bytes.as_slice())
    }

    /// The key's bytes.
    pub fn bytes(&self) -> (b: &[u8])
        ensures
            b@ == self@,
    {
        self.bytes.as_slice()
    }

    /// Encrypts a path with the fixed path nonce. Fails only on a path whose
    /// UTF-8 encoding is longer than the cipher accepts.
    pub fn encrypt_path(&self, path: &String) -> (res: Result<Vec<u8>, aes_gcm_siv::Error>)
        ensures
            match res {
                Ok(c) => {
                    &&& encode_utf8(path@).len() <= MAX_PLAINTEXT
                    &&& c@ == encrypted_path(self@, path@)
                    &&& c@.len() == encode_utf8(path@).len() + TAG_LEN
                    &&& sealed_only_from(self@, path_nonce(), c@, encode_utf8(path@))
                },
                Err(_) => encode_utf8(path@).len() > MAX_PLAINTEXT,
            },
    {
        proof {
            use_type_invariant(self);
        }
        let nonce = path_nonce_bytes();
        seal(self.bytes.as_slice(), nonce.as_slice(), path.as_str().as_bytes())
    }

    /// Decrypts what `encrypt_path` made of some path under this key, and
    /// gives back that path; fails on bytes that no path encrypts to.
    /// (Bytes that would decrypt to something that is not UTF-8 are not
    /// accepted; `try_decrypt_path` tells them apart.)
    pub fn decrypt_path(&self, data: Vec<u8>) -> (res: Result<String, aes_gcm_siv::Error>)
        requires
            opens_to_text(self@, data@),
        ensures
            res matches Ok(s) ==> encrypted_path(self@, s@) == data@,
            forall|s: Seq<char>|
                encode_utf8(s).len() <= MAX_PLAINTEXT && #[trigger] encrypted_path(self@, s) == data@
                    ==> (res matches Ok(t) && t@ == s),
    {
        proof {
            use_type_invariant(self);
        }
        let nonce = path_nonce_bytes();
        match open_sealed(self.bytes.as_slice(), nonce.as_slice(), data.as_slice()) {
            Ok(plain) => {
                let ghost p = plain@;
                assert(aes_gcm_siv_seal(self@, path_nonce(), p) == data@);
                match string_from_utf8(plain) {
                    Ok(s) => {
                        proof {
                            vstd::utf8::decode_utf8_encode_utf8(p);
                            assert forall|t: Seq<char>|
                                encode_utf8(t).len() <= MAX_PLAINTEXT && #[trigger] encrypted_path(self@, t)
                                    == data@ implies s@ == t by {
                                vstd::utf8::encode_utf8_decode_utf8(t);
                            }
                        }
                        Ok(s)
                    },
                    Err(_) => {
                        proof {
                            assert(false);
                        }
                        Ok(String::new())
                    },
                }
            },
            Err(e) => Err(e),
        }
    }

    /// Decrypts as `decrypt_path` does, after checking that the bytes do not
    /// decrypt to something that is not UTF-8 (a path that this program
    /// never encrypts); `None` in that case.
    pub fn try_decrypt_path(&self, data: Vec<u8>) -> (res: Option<Result<String, aes_gcm_siv::Error>>)
        ensures
            path_decryption(self@, data@, res),
    {
        proof {
            use_type_invariant(self);
        }
        let nonce = path_nonce_bytes();
        match open_sealed(self.bytes.as_slice(), nonce.as_slice(), data.as_slice()) {
            Ok(plain) => {
                let ghost p = plain@;
                match string_from_utf8(plain) {
                    Ok(_) => {
                        let res = self.decrypt_path(data);
                        proof {
                            if let Err(_) = res {
                                assert forall|s: Seq<char>|
                                    encode_utf8(s).len() <= MAX_PLAINTEXT implies #[trigger] encrypted_path(
                                        self@,
                                        s,
                                    ) != data@ by {
                                    if encrypted_path(self@, s) == data@ {
                                        assert(aes_gcm_siv_seal(self@, path_nonce(), encode_utf8(s)) == data@);
                                    }
                                }
                            }
                        }
                        Some(res)
                    },
                    Err(_) => {
                        assert(aes_gcm_siv_seal(self@, path_nonce(), p) == data@);
                        assert forall|s: Seq<char>|
                            encode_utf8(s).len() <= MAX_PLAINTEXT && #[trigger] encrypted_path(self@, s)
                                == data@ implies false by {
                            assert(aes_gcm_siv_seal(self@, path_nonce(), encode_utf8(s)) == data@);
                            vstd::utf8::encode_utf8_valid_utf8(s);
                        }
                        None
                    },
                }
            },
            Err(e) => {
                assert forall|s: Seq<char>|
                    encode_utf8(s).len() <= MAX_PLAINTEXT implies #[trigger] encrypted_path(self@, s) != data@ by {
                    assert(aes_gcm_siv_seal(self@, path_nonce(), encode_utf8(s)) != data@);
                }
                Some(Err(e))
            },
        }
    }
}

} // verus!
