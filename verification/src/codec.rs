//! The obfuscation codec: a byte-wise XOR against a cycled key.
//!
//! The transform is its own inverse and has no nonce, so equal plaintexts give
//! equal ciphertexts. It keeps stored values from casual inspection and is not
//! a cipher.

use crate::json::{is_json, parse_json};
use vstd::prelude::*;

verus! {

/// The key that `encode` and `decode` cycle over: the bytes of the phrase
/// `secret_key_for_secret`. It is part of the program, so what it protects is
/// hidden from a glance and from nothing more.
pub const XOR_KEY: [u8; 21] = [
    115, 101, 99, 114, 101, 116, 95, 107, 101, 121, 95, 102, 111, 114, 95, 115, 101, 99, 114, 101,
    116,
];

/// `data` combined byte by byte with `key`, the key repeated as often as the
/// data needs. With an empty key there is nothing to combine with and the
/// result is empty.
pub open spec fn xor_stream(data: Seq<u8>, key: Seq<u8>) -> Seq<u8> {
    if key.len() == 0 {
        Seq::empty()
    } else {
        Seq::new(data.len(), |i: int| data[i] ^ key[i % key.len() as int])
    }
}

/// Combines `data` with the cycled `key`.
pub fn xor_crypt(data: &[u8], key: &[u8]) -> (out: Vec<u8>)
    ensures
        out@ == xor_stream(data@, key@),
{
    let mut out: Vec<u8> = Vec::new();
    if key.len() == 0 {
        return out;
    }
    let mut i: usize = 0;
    while i < data.len()
        invariant
            key.len() > 0,
            i <= data.len(),
            out@.len() == i,
            forall|j: int| 0 <= j < i ==> out@[j] == data@[j] ^ key@[j % key@.len() as int],
        decreases data.len() - i,
    {
        out.push(data[i] ^ key[i % key.len()]);
        i += 1;
    }
    out
}

/// Applying the same non-empty key twice gives the data back.
pub proof fn xor_stream_is_involution(data: Seq<u8>, key: Seq<u8>)
    requires
        key.len() > 0,
    ensures
        xor_stream(xor_stream(data, key), key) == data,
{
    let once = xor_stream(data, key);
    let twice = xor_stream(once, key);
    assert forall|i: int| 0 <= i < data.len() implies twice[i] == data[i] by {
        let d = data[i];
        let k = key[i % key.len() as int];
        assert((d ^ k) ^ k == d) by (bit_vector);
    }
    assert(twice =~= data);
}

/// The obfuscated form of `plaintext` under the fixed key.
pub open spec fn encoded(plaintext: Seq<u8>) -> Seq<u8> {
    xor_stream(plaintext, XOR_KEY@)
}

/// The plaintext that `ciphertext` stands for under the fixed key.
pub open spec fn decoded(ciphertext: Seq<u8>) -> Seq<u8> {
    xor_stream(ciphertext, XOR_KEY@)
}

/// Obfuscates `plaintext` with the fixed key.
pub fn encode(plaintext: &[u8]) -> (ciphertext: Vec<u8>)
    ensures
        ciphertext@ == encoded(plaintext@),
        ciphertext@.len() == plaintext@.len(),
{
    let key = XOR_KEY;
    xor_crypt(plaintext, &key)
}

/// Recovers the plaintext from `ciphertext` with the fixed key.
pub fn decode(ciphertext: &[u8]) -> (plaintext: Vec<u8>)
    ensures
        plaintext@ == decoded(ciphertext@),
        plaintext@.len() == ciphertext@.len(),
{
    let key = XOR_KEY;
    xor_crypt(ciphertext, &key)
}

/// Decoding what was encoded gives the plaintext back, whatever its length.
pub proof fn decode_inverts_encode(plaintext: Seq<u8>)
    ensures
        decoded(encoded(plaintext)) == plaintext,
{
    xor_stream_is_involution(plaintext, XOR_KEY@);
}

/// Encoding what was decoded gives the ciphertext back: the two directions are
/// one transform.
pub proof fn encode_inverts_decode(ciphertext: Seq<u8>)
    ensures
        encoded(decoded(ciphertext)) == ciphertext,
        encoded(ciphertext) == decoded(ciphertext),
{
    xor_stream_is_involution(ciphertext, XOR_KEY@);
}

/// A structured value in its serialised form: the bytes of one JSON document.
#[derive(Debug, PartialEq, Eq)]
pub struct SerializedValue {
    text: Vec<u8>,
}

impl View for SerializedValue {
    type V = Seq<u8>;

    closed spec fn view(&self) -> Seq<u8> {
        self.text@
    }
}

/// Why bytes were refused as a serialised value: the parser's own account.
#[derive(Debug)]
pub struct DecodeError {
    pub cause: serde_json::Error,
}

impl SerializedValue {
    #[verifier::type_invariant]
    spec fn holds_json(self) -> bool {
        is_json(self.text@)
    }

    /// Takes `text` as a serialised value if it is one JSON document, and
    /// refuses it otherwise.
    pub fn parse(text: Vec<u8>) -> (parsed: Result<SerializedValue, DecodeError>)
        ensures
            match parsed {
                Ok(value) => is_json(text@) && value@ == text@,
                Err(_) => !is_json(text@),
            },
    {
        match parse_json(text.as_slice()) {
            Ok(_) => Ok(SerializedValue { text }),
            Err(cause) => Err(DecodeError { cause }),
        }
    }

    /// The bytes of the document.
    pub fn as_bytes(&self) -> (text: &[u8])
        ensures
            text@ == self@,
            is_json(self@),
    {
        proof {
            use_type_invariant(self);
        }
        self.text.as_slice()
    }

    /// Gives the bytes of the document up.
    pub fn into_bytes(self) -> (text: Vec<u8>)
        ensures
            text@ == self@,
            is_json(self@),
    {
        proof {
            use_type_invariant(&self);
        }
        self.text
    }
}

/// Obfuscates a serialised value for storage.
pub fn encrypt_data(data: &SerializedValue) -> (encrypted: Vec<u8>)
    ensures
        encrypted@ == encoded(data@),
        decoded(encrypted@) == data@,
{
    proof {
        decode_inverts_encode(data@);
    }
    encode(data.as_bytes())
}

/// Recovers a serialised value from its obfuscated form. Bytes that do not
/// decode to a JSON document are refused: they were damaged, or were never
/// written with this key.
pub fn decrypt_data(encrypted: &[u8]) -> (decrypted: Result<SerializedValue, DecodeError>)
    ensures
        match decrypted {
            Ok(value) => value@ == decoded(encrypted@) && is_json(value@),
            Err(_) => !is_json(decoded(encrypted@)),
        },
{
    SerializedValue::parse(decode(encrypted))
}

} // verus!
