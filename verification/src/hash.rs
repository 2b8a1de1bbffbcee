//! 32-byte packet hashes and public keys, written in URL-safe base64.
use vstd::prelude::*;

use base64::Engine;

verus! {

/// `base64::DecodeError`, carried through without looking inside.
#[verifier::external_type_specification]
#[verifier::external_body]
pub struct ExDecodeError(base64::DecodeError);

/// What `URL_SAFE_NO_PAD.decode` of the `base64` crate gives for `input`:
/// the decoded bytes, or `None` where it returns an error.
pub uninterp spec fn url_safe_b64_decode(input: Seq<u8>) -> Option<Seq<u8>>;

/// What `URL_SAFE_NO_PAD.encode` of the `base64` crate gives for `input`.
pub uninterp spec fn url_safe_b64_encode(input: Seq<u8>) -> Seq<char>;

/// Calls `base64::engine::general_purpose::URL_SAFE_NO_PAD.decode`.
/// Claims only that its result is the named decoding of `input`, and that it
/// fails exactly where that decoding is undefined.
#[verifier::external_body]
fn b64_decode(input: &[u8]) -> (res: Result<Vec<u8>, base64::DecodeError>)
    ensures
        res is Ok <==> url_safe_b64_decode(input@) is Some,
        res matches Ok(v) ==> url_safe_b64_decode(input@) == Some(v@),
{
    base64::engine::general_purpose::URL_SAFE_NO_PAD.decode(input)
}

/// Calls `base64::engine::general_purpose::URL_SAFE_NO_PAD.encode` on 32 bytes.
/// Claims that the result is the named encoding, and (as the crate documents
/// for every engine) that decoding the encoded text gives the bytes back.
#[verifier::external_body]
fn b64_encode(bytes: &[u8; 32]) -> (res: String)
    ensures
        res@ == url_safe_b64_encode(bytes@),
        url_safe_b64_decode(vstd::utf8::encode_utf8(res@)) == Some(bytes@),
{
    base64::engine::general_purpose::URL_SAFE_NO_PAD.encode(bytes)
}

/// A 32-byte value (a packet hash or a public key), shown in URL-safe base64.
#[derive(Debug, Copy, Clone, PartialEq, Eq)]
pub struct B64b32(pub [u8; 32]);

/// A packet hash.
pub type Hash = B64b32;

/// A public key.
pub type Pubkey = B64b32;

/// A form body that names a hash.
pub struct HashBody {
    pub hash: B64b32,
}

/// Why a text could not be read as a [`B64b32`].
#[derive(Debug, Copy, Clone, PartialEq, Eq, Structural)]
pub enum HashParseError {
    /// The text is not URL-safe base64 without padding.
    NotBase64,
    /// The text decodes to this many bytes rather than 32.
    WrongLength(usize),
}

/// What reading `text` as a hash gives: the decoded 32 bytes, or the reason it fails.
pub open spec fn spec_parse_b64b32(text: Seq<u8>) -> Result<Seq<u8>, HashParseError> {
    match url_safe_b64_decode(text) {
        None => Err(HashParseError::NotBase64),
        Some(b) => if b.len() == 32 {
            Ok(b)
        } else {
            Err(HashParseError::WrongLength(b.len() as usize))
        },
    }
}

impl B64b32 {
    /// Wraps 32 bytes.
    pub fn new(bytes: [u8; 32]) -> (res: Self)
        ensures
            res.0@ == bytes@,
    {
        B64b32(bytes)
    }

    /// Whether both hold the same bytes.
    pub fn same(&self, other: &Self) -> (b: bool)
        ensures
            b == (self.0@ == other.0@),
    {
        let mut i: usize = 0;
        while i < 32
            invariant
                i <= 32,
                forall|j: int| 0 <= j < i ==> self.0@[j] == other.0@[j],
            decreases 32 - i,
        {
            if self.0[i] != other.0[i] {
                return false;
            }
            i = i + 1;
        }
        assert(self.0@ =~= other.0@);
        true
    }

    /// Reads a hash from URL-safe base64 text (43 characters, no padding).
    pub fn parse_bytes(text: &[u8]) -> (res: Result<Self, HashParseError>)
        ensures
            match spec_parse_b64b32(text@) {
                Ok(b) => res matches Ok(h) && h.0@ == b,
                Err(e) => res == Err::<Self, HashParseError>(e),
            },
    {
        match b64_decode(text) {
            Err(_) => Err(HashParseError::NotBase64),
            Ok(v) => {
                if v.len() != 32 {
                    return Err(HashParseError::WrongLength(v.len()));
                }
                let mut a = [0u8; 32];
                let mut i: usize = 0;
                while i < 32
                    invariant
                        i <= 32,
                        v@.len() == 32,
                        forall|j: int| 0 <= j < i ==> a@[j] == v@[j],
                    decreases 32 - i,
                {
                    a[i] = v[i];
                    i = i + 1;
                }
                assert(a@ =~= v@);
                Ok(B64b32(a))
            },
        }
    }

    /// Reads a hash from URL-safe base64 text (43 characters, no padding).
    pub fn parse_str(text: &str) -> (res: Result<Self, HashParseError>)
        ensures
            match spec_parse_b64b32(vstd::utf8::encode_utf8(text@)) {
                Ok(b) => res matches Ok(h) && h.0@ == b,
                Err(e) => res == Err::<Self, HashParseError>(e),
            },
    {
        Self::parse_bytes(text.as_bytes())
    }

    /// Reads a hash from a request body: 32 bytes are taken as they are,
    /// anything else is read as URL-safe base64.
    pub fn try_fit_bytes_or_b64(body: &[u8]) -> (res: Result<Self, HashParseError>)
        ensures
            body@.len() == 32 ==> (res matches Ok(h) && h.0@ == body@),
            body@.len() != 32 ==> match spec_parse_b64b32(body@) {
                Ok(b) => res matches Ok(h) && h.0@ == b,
                Err(e) => res == Err::<Self, HashParseError>(e),
            },
    {
        if body.len() == 32 {
            let mut a = [0u8; 32];
            let mut i: usize = 0;
            while i < 32
                invariant
                    i <= 32,
                    body@.len() == 32,
                    forall|j: int| 0 <= j < i ==> a@[j] == body@[j],
                decreases 32 - i,
            {
                a[i] = body[i];
                i = i + 1;
            }
            assert(a@ =~= body@);
            Ok(B64b32(a))
        } else {
            Self::parse_bytes(body)
        }
    }

    /// The URL-safe base64 text of this hash.
    pub fn b64(&self) -> (s: String)
        ensures
            s@ == url_safe_b64_encode(self.0@),
            url_safe_b64_decode(vstd::utf8::encode_utf8(s@)) == Some(self.0@),
    {
        b64_encode(&self.0)
    }
}

} // verus!
