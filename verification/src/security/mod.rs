//! Node identity utilities: UUID text, the out-of-band pairing code, and
//! the signed pairing payload.
use vstd::prelude::*;

use sha2::Digest;

pub mod noise;

use crate::text::{append_chars, chars_of, push_decimal, decimal, string_from_chars};

verus! {

// ---------------------------------------------------------------------------
// UUID text
// ---------------------------------------------------------------------------

/// A lowercase hexadecimal digit.
pub open spec fn hex_digit(d: nat) -> char {
    if d < 10 {
        (('0' as u32) + d) as char
    } else {
        (('a' as u32) + d - 10) as char
    }
}

/// The 32 lowercase hexadecimal digits of a 128-bit value, most significant first.
pub open spec fn hex32(id: u128) -> Seq<char> {
    Seq::new(32, |k: int| hex_digit(((id >> ((124 - 4 * k) as u32)) & 0xf) as nat))
}

/// The hyphenated UUID form `8-4-4-4-12`, as `uuid::Uuid` displays it.
pub open spec fn uuid_text_spec(id: u128) -> Seq<char> {
    let h = hex32(id);
    h.subrange(0, 8) + seq!['-'] + h.subrange(8, 12) + seq!['-'] + h.subrange(12, 16) + seq!['-']
        + h.subrange(16, 20) + seq!['-'] + h.subrange(20, 32)
}

pub fn hex_char(d: u8) -> (c: char)
    requires
        d < 16,
    ensures
        c == hex_digit(d as nat),
{
    if d < 10 {
        (d + 48) as char
    } else {
        (d + 87) as char
    }
}

pub fn hex_digits(id: u128) -> (out: Vec<char>)
    ensures
        out@ == hex32(id),
{
    let mut out: Vec<char> = Vec::new();
    for k in 0..32u32
        invariant
            out@ == hex32(id).take(k as int),
    {
        let shift: u32 = 124 - 4 * k;
        let nibble = ((id >> shift) & 0xf) as u8;
        proof {
            assert(((id >> shift) & 0xf) < 16) by (bit_vector);
        }
        out.push(hex_char(nibble));
        proof {
            assert(hex32(id).take(k + 1) == hex32(id).take(k as int).push(hex32(id)[k as int]));
        }
    }
    proof {
        assert(hex32(id).take(32) == hex32(id));
    }
    out
}

/// Appends the hyphenated UUID text of `id` to `out`.
pub fn push_uuid(out: &mut Vec<char>, id: u128)
    ensures
        final(out)@ == old(out)@ + uuid_text_spec(id),
{
    let h = hex_digits(id);
    let ghost start = out@;
    let mut k: usize = 0;
    while k < 32
        invariant
            h@ == hex32(id),
            k <= 32,
            out@ == start + uuid_prefix(id, k as int),
        decreases 32 - k,
    {
        if k == 8 || k == 12 || k == 16 || k == 20 {
            out.push('-');
        }
        out.push(h[k]);
        proof {
            lemma_uuid_prefix_step(id, k as int);
        }
        k += 1;
    }
    proof {
        lemma_uuid_prefix_full(id);
    }
}

/// The text for the first `k` hex digits, hyphens included.
pub open spec fn uuid_prefix(id: u128, k: int) -> Seq<char>
    decreases k,
{
    if k <= 0 {
        Seq::empty()
    } else {
        let before = uuid_prefix(id, k - 1);
        let with_hyphen = if k - 1 == 8 || k - 1 == 12 || k - 1 == 16 || k - 1 == 20 {
            before.push('-')
        } else {
            before
        };
        with_hyphen.push(hex32(id)[k - 1])
    }
}

proof fn lemma_uuid_prefix_step(id: u128, k: int)
    requires
        0 <= k < 32,
    ensures
        uuid_prefix(id, k + 1) == (if k == 8 || k == 12 || k == 16 || k == 20 {
            uuid_prefix(id, k).push('-')
        } else {
            uuid_prefix(id, k)
        }).push(hex32(id)[k]),
{
}

proof fn lemma_uuid_prefix_full(id: u128)
    ensures
        uuid_prefix(id, 32) == uuid_text_spec(id),
{
    reveal_with_fuel(uuid_prefix, 33);
    assert(uuid_prefix(id, 32) =~= uuid_text_spec(id));
}

/// The hyphenated lowercase text of a UUID.
pub fn uuid_text(id: u128) -> (s: String)
    ensures
        s@ == uuid_text_spec(id),
{
    let mut v: Vec<char> = Vec::new();
    push_uuid(&mut v, id);
    proof {
        assert(Seq::<char>::empty() + uuid_text_spec(id) == uuid_text_spec(id));
    }
    string_from_chars(&v)
}

} // verus!

verus! {

// ---------------------------------------------------------------------------
// SHA-256
// ---------------------------------------------------------------------------

/// The SHA-256 digest of a byte sequence.
pub uninterp spec fn sha256_spec(data: Seq<u8>) -> Seq<u8>;

/// `sha2::Sha256::digest`: the SHA-256 digest of `data`, which is 32 bytes long.
#[verifier::external_body]
pub(crate) fn sha256(data: &[u8]) -> (digest: Vec<u8>)
    ensures
        digest@ == sha256_spec(data@),
        digest@.len() == 32,
{
    <sha2::Sha256 as Digest>::digest(data).to_vec()
}

// ---------------------------------------------------------------------------
// Lexicographic order of character sequences
// ---------------------------------------------------------------------------

/// `a` sorts before or equal to `b`, comparing code points from the first.
/// This is the order of `String`, whose UTF-8 bytes sort as the code points do.
pub open spec fn lex_le(a: Seq<char>, b: Seq<char>) -> bool
    decreases a.len(),
{
    if a.len() == 0 {
        true
    } else if b.len() == 0 {
        false
    } else if a[0] != b[0] {
        a[0] < b[0]
    } else {
        lex_le(a.drop_first(), b.drop_first())
    }
}

pub proof fn lemma_lex_total(a: Seq<char>, b: Seq<char>)
    ensures
        lex_le(a, b) || lex_le(b, a),
    decreases a.len(),
{
    if a.len() > 0 && b.len() > 0 {
        if a[0] == b[0] {
            lemma_lex_total(a.drop_first(), b.drop_first());
        }
    }
}

pub proof fn lemma_lex_antisymmetric(a: Seq<char>, b: Seq<char>)
    requires
        lex_le(a, b),
        lex_le(b, a),
    ensures
        a == b,
    decreases a.len(),
{
    if a.len() > 0 && b.len() > 0 {
        if a[0] == b[0] {
            lemma_lex_antisymmetric(a.drop_first(), b.drop_first());
            assert(a =~= seq![a[0]] + a.drop_first());
            assert(b =~= seq![b[0]] + b.drop_first());
        }
    } else {
        assert(a.len() == 0 && b.len() == 0);
    }
}

/// Whether `a` sorts before or equal to `b`.
pub fn lex_less_or_equal(a: &[char], b: &[char]) -> (le: bool)
    ensures
        le == lex_le(a@, b@),
{
    let mut i: usize = 0;
    proof {
        assert(a@.skip(0) == a@);
        assert(b@.skip(0) == b@);
    }
    while i < a.len()
        invariant
            i <= a@.len(),
            i <= b@.len(),
            a@.subrange(0, i as int) == b@.subrange(0, i as int),
            lex_le(a@, b@) == lex_le(a@.skip(i as int), b@.skip(i as int)),
        decreases a@.len() - i,
    {
        proof {
            assert(a@.skip(i as int).len() > 0);
            assert(a@.skip(i as int)[0] == a@[i as int]);
        }
        if i >= b.len() {
            return false;
        }
        proof {
            assert(b@.skip(i as int)[0] == b@[i as int]);
        }
        if a[i] != b[i] {
            return a[i] < b[i];
        }
        proof {
            assert(a@.skip(i as int).drop_first() == a@.skip(i + 1));
            assert(b@.skip(i as int).drop_first() == b@.skip(i + 1));
            assert(a@.subrange(0, i + 1) == a@.subrange(0, i as int).push(a@[i as int]));
            assert(b@.subrange(0, i + 1) == b@.subrange(0, i as int).push(b@[i as int]));
        }
        i += 1;
    }
    true
}

// ---------------------------------------------------------------------------
// Pairing code
// ---------------------------------------------------------------------------

/// `id:key` for one peer.
pub open spec fn peer_tuple(id: u128, key: Seq<char>) -> Seq<char> {
    uuid_text_spec(id) + seq![':'] + key
}

/// Both peer tuples in sorted order joined by `|`.
pub open spec fn pairing_material(local_id: u128, local_key: Seq<char>, remote_id: u128, remote_key: Seq<char>) -> Seq<char> {
    let a = peer_tuple(local_id, local_key);
    let b = peer_tuple(remote_id, remote_key);
    if lex_le(a, b) {
        a + seq!['|'] + b
    } else {
        b + seq!['|'] + a
    }
}

/// The big-endian value of the first four bytes.
pub open spec fn be_u32_prefix(d: Seq<u8>) -> int {
    d[0] * 16777216 + d[1] * 65536 + d[2] * 256 + d[3]
}

/// A number below 1000 as exactly three decimal digits.
pub open spec fn three_digits(n: int) -> Seq<char> {
    seq![
        (('0' as u32) + n / 100) as char,
        (('0' as u32) + (n / 10) % 10) as char,
        (('0' as u32) + n % 10) as char,
    ]
}

/// The six-digit code both peers display: the first four bytes of the
/// SHA-256 of the sorted, joined peer tuples, modulo one million, as
/// `ddd ddd`.
pub open spec fn pairing_code_spec(local_id: u128, local_key: Seq<char>, remote_id: u128, remote_key: Seq<char>) -> Seq<char> {
    let digest = sha256_spec(crate::text::utf8_bytes(pairing_material(local_id, local_key, remote_id, remote_key)));
    let value = be_u32_prefix(digest) % 1000000;
    three_digits(value / 1000) + seq![' '] + three_digits(value % 1000)
}

fn push_three_digits(out: &mut Vec<char>, n: u32)
    requires
        n < 1000,
    ensures
        final(out)@ == old(out)@ + three_digits(n as int),
{
    out.push(((n / 100) as u8 + 48) as char);
    out.push((((n / 10) % 10) as u8 + 48) as char);
    out.push(((n % 10) as u8 + 48) as char);
}

/// Produces the same six-digit out-of-band confirmation on both peers.
pub fn pairing_code(local_id: u128, local_key: &str, remote_id: u128, remote_key: &str) -> (code: String)
    ensures
        code@ == pairing_code_spec(local_id, local_key@, remote_id, remote_key@),
{
    let mut a: Vec<char> = Vec::new();
    push_uuid(&mut a, local_id);
    a.push(':');
    append_chars(&mut a, &chars_of(local_key));
    let mut b: Vec<char> = Vec::new();
    push_uuid(&mut b, remote_id);
    b.push(':');
    append_chars(&mut b, &chars_of(remote_key));
    proof {
        assert(a@ =~= peer_tuple(local_id, local_key@));
        assert(b@ =~= peer_tuple(remote_id, remote_key@));
    }
    let mut joined: Vec<char> = Vec::new();
    if lex_less_or_equal(&a, &b) {
        append_chars(&mut joined, &a);
        joined.push('|');
        append_chars(&mut joined, &b);
    } else {
        append_chars(&mut joined, &b);
        joined.push('|');
        append_chars(&mut joined, &a);
    }
    proof {
        assert(joined@ =~= pairing_material(local_id, local_key@, remote_id, remote_key@));
    }
    let text = string_from_chars(&joined);
    let digest = sha256(text.as_str().as_bytes());
    let value: u32 = ((digest[0] as u32) * 16777216 + (digest[1] as u32) * 65536 + (digest[2] as u32) * 256
        + (digest[3] as u32)) % 1000000;
    let mut out: Vec<char> = Vec::new();
    push_three_digits(&mut out, value / 1000);
    out.push(' ');
    push_three_digits(&mut out, value % 1000);
    proof {
        assert(out@ =~= pairing_code_spec(local_id, local_key@, remote_id, remote_key@));
    }
    string_from_chars(&out)
}

/// The pairing code does not depend on which side computes it.
pub proof fn lemma_pairing_code_symmetric(a: u128, key_a: Seq<char>, b: u128, key_b: Seq<char>)
    ensures
        pairing_code_spec(a, key_a, b, key_b) == pairing_code_spec(b, key_b, a, key_a),
{
    let x = peer_tuple(a, key_a);
    let y = peer_tuple(b, key_b);
    lemma_lex_total(x, y);
    if lex_le(x, y) && lex_le(y, x) {
        lemma_lex_antisymmetric(x, y);
    }
    assert(pairing_material(a, key_a, b, key_b) == pairing_material(b, key_b, a, key_a));
}

/// The pairing code is always seven characters: three digits, a space, three digits.
pub proof fn lemma_pairing_code_format(a: u128, key_a: Seq<char>, b: u128, key_b: Seq<char>)
    ensures
        pairing_code_spec(a, key_a, b, key_b).len() == 7,
        pairing_code_spec(a, key_a, b, key_b)[3] == ' ',
        forall|i: int| 0 <= i < 7 && i != 3 ==> crate::text::is_digit(#[trigger] pairing_code_spec(a, key_a, b, key_b)[i]),
{
    let digest = sha256_spec(crate::text::utf8_bytes(pairing_material(a, key_a, b, key_b)));
    let value = be_u32_prefix(digest) % 1000000;
    assert(0 <= value < 1000000);
    assert(0 <= value / 1000 < 1000);
}

} // verus!

verus! {

// ---------------------------------------------------------------------------
// Base64 and Ed25519 primitives
// ---------------------------------------------------------------------------

/// Standard-alphabet, padded Base64 text of bytes.
pub uninterp spec fn base64_encode_spec(bytes: Seq<u8>) -> Seq<char>;

/// The bytes that standard Base64 text decodes to, if it is valid.
pub uninterp spec fn base64_decode_spec(text: Seq<char>) -> Option<Seq<u8>>;

/// `base64::engine::general_purpose::STANDARD.encode`; the standard engine
/// decodes what it encodes back to the same bytes.
#[verifier::external_body]
fn base64_encode(bytes: &[u8]) -> (text: String)
    ensures
        text@ == base64_encode_spec(bytes@),
        base64_decode_spec(text@) == Some(bytes@),
{
    base64::Engine::encode(&base64::engine::general_purpose::STANDARD, bytes)
}

/// `base64::engine::general_purpose::STANDARD.decode`, with its error as `None`.
#[verifier::external_body]
fn base64_decode(text: &str) -> (bytes: Option<Vec<u8>>)
    ensures
        match bytes {
            Some(b) => base64_decode_spec(text@) == Some(b@),
            None => base64_decode_spec(text@) is None,
        },
{
    base64::Engine::decode(&base64::engine::general_purpose::STANDARD, text).ok()
}

/// The Ed25519 verifying-key bytes of a 32-byte secret key.
pub uninterp spec fn ed25519_public_spec(secret: Seq<u8>) -> Seq<u8>;

/// The Ed25519 signature of a payload under a 32-byte secret key.
pub uninterp spec fn ed25519_signature_spec(secret: Seq<u8>, payload: Seq<u8>) -> Seq<u8>;

/// Whether 32 bytes decompress to an Ed25519 curve point.
pub uninterp spec fn ed25519_key_valid(public: Seq<u8>) -> bool;

/// Whether a 64-byte signature over a payload verifies under a public key.
pub uninterp spec fn ed25519_accepts(public: Seq<u8>, payload: Seq<u8>, signature: Seq<u8>) -> bool;

/// `SigningKey::from_bytes(secret).verifying_key().to_bytes()`: the public key
/// of a secret key; it is the compression of a curve point, so it decompresses.
#[verifier::external_body]
fn ed25519_public(secret: &[u8]) -> (public: Vec<u8>)
    requires
        secret@.len() == 32,
    ensures
        public@ == ed25519_public_spec(secret@),
        public@.len() == 32,
        ed25519_key_valid(public@),
{
    let secret: [u8; 32] = secret.try_into().unwrap();
    ed25519_dalek::SigningKey::from_bytes(&secret).verifying_key().to_bytes().to_vec()
}

/// `SigningKey::sign`: a 64-byte signature that verifies under the key's
/// public key.
#[verifier::external_body]
fn ed25519_sign(secret: &[u8], payload: &[u8]) -> (signature: Vec<u8>)
    requires
        secret@.len() == 32,
    ensures
        signature@ == ed25519_signature_spec(secret@, payload@),
        signature@.len() == 64,
        ed25519_accepts(ed25519_public_spec(secret@), payload@, signature@),
{
    let secret: [u8; 32] = secret.try_into().unwrap();
    ed25519_dalek::Signer::sign(&ed25519_dalek::SigningKey::from_bytes(&secret), payload).to_bytes().to_vec()
}

/// The outcome of checking an Ed25519 signature.
#[derive(Debug, Clone, Copy, PartialEq, Eq, Structural)]
pub enum SignatureCheck {
    /// The public key is not a curve point.
    BadKey,
    /// The signature is not 64 bytes long.
    BadSignature,
    Rejected,
    Accepted,
}

/// `VerifyingKey::from_bytes`, `Signature::from_slice` and `Verifier::verify`,
/// each failure reported as its own outcome.
#[verifier::external_body]
fn ed25519_verify(public: &[u8], payload: &[u8], signature: &[u8]) -> (check: SignatureCheck)
    requires
        public@.len() == 32,
    ensures
        !ed25519_key_valid(public@) ==> check == SignatureCheck::BadKey,
        ed25519_key_valid(public@) && signature@.len() != 64 ==> check == SignatureCheck::BadSignature,
        ed25519_key_valid(public@) && signature@.len() == 64 ==> check == (if ed25519_accepts(public@, payload@, signature@) {
            SignatureCheck::Accepted
        } else {
            SignatureCheck::Rejected
        }),
{
    let public: [u8; 32] = public.try_into().unwrap();
    let Ok(key) = ed25519_dalek::VerifyingKey::from_bytes(&public) else {
        return SignatureCheck::BadKey;
    };
    let Ok(signature) = ed25519_dalek::Signature::from_slice(signature) else {
        return SignatureCheck::BadSignature;
    };
    match ed25519_dalek::Verifier::verify(&key, payload, &signature) {
        Ok(()) => SignatureCheck::Accepted,
        Err(_) => SignatureCheck::Rejected,
    }
}

// ---------------------------------------------------------------------------
// Node identity
// ---------------------------------------------------------------------------

/// Why an identity or a signature was refused.
#[derive(Debug, Clone, Copy, PartialEq, Eq, Structural)]
pub enum SecurityError {
    IdentityNotBase64,
    IdentityLength,
    KeyNotBase64,
    KeyLength,
    InvalidKey,
    SignatureNotBase64,
    InvalidSignature,
    VerificationFailed,
    SelfPairing,
}

impl SecurityError {
    /// The message shown for this error.
    pub fn message(&self) -> (text: &'static str)
        ensures
            text@ == (match *self {
                SecurityError::IdentityNotBase64 => "identity key is not valid base64"@,
                SecurityError::IdentityLength => "identity key must contain exactly 32 bytes"@,
                SecurityError::KeyNotBase64 => "peer public key is not valid base64"@,
                SecurityError::KeyLength => "peer public key must contain exactly 32 bytes"@,
                SecurityError::InvalidKey => "peer public key is invalid"@,
                SecurityError::SignatureNotBase64 => "signature is not valid base64"@,
                SecurityError::InvalidSignature => "signature is invalid"@,
                SecurityError::VerificationFailed => "signature verification failed"@,
                SecurityError::SelfPairing => "a node cannot pair with itself"@,
            }),
    {
        match self {
            SecurityError::IdentityNotBase64 => "identity key is not valid base64",
            SecurityError::IdentityLength => "identity key must contain exactly 32 bytes",
            SecurityError::KeyNotBase64 => "peer public key is not valid base64",
            SecurityError::KeyLength => "peer public key must contain exactly 32 bytes",
            SecurityError::InvalidKey => "peer public key is invalid",
            SecurityError::SignatureNotBase64 => "signature is not valid base64",
            SecurityError::InvalidSignature => "signature is invalid",
            SecurityError::VerificationFailed => "signature verification failed",
            SecurityError::SelfPairing => "a node cannot pair with itself",
        }
    }
}

/// A long-lived Ed25519 node identity, held as its 32-byte secret key.
pub struct NodeIdentity {
    secret: Vec<u8>,
}

/// What `verify` concludes about a Base64 public key, payload and Base64 signature.
pub open spec fn verify_spec(public_key: Seq<char>, payload: Seq<u8>, signature: Seq<char>) -> Result<(), SecurityError> {
    match base64_decode_spec(public_key) {
        None => Err(SecurityError::KeyNotBase64),
        Some(pk) => if pk.len() != 32 {
            Err(SecurityError::KeyLength)
        } else if !ed25519_key_valid(pk) {
            Err(SecurityError::InvalidKey)
        } else {
            match base64_decode_spec(signature) {
                None => Err(SecurityError::SignatureNotBase64),
                Some(sig) => if sig.len() != 64 {
                    Err(SecurityError::InvalidSignature)
                } else if ed25519_accepts(pk, payload, sig) {
                    Ok(())
                } else {
                    Err(SecurityError::VerificationFailed)
                },
            }
        },
    }
}

impl NodeIdentity {
    #[verifier::type_invariant]
    spec fn well_formed(self) -> bool {
        self.secret@.len() == 32
    }

    /// The 32-byte secret key.
    pub closed spec fn secret_key(self) -> Seq<u8> {
        self.secret@
    }

    /// An identity from its secret key bytes; `None` unless there are 32.
    pub fn from_secret(secret: Vec<u8>) -> (identity: Option<NodeIdentity>)
        ensures
            secret@.len() == 32 <==> identity is Some,
            identity matches Some(i) ==> i.secret_key() == secret@,
    {
        if secret.len() == 32 {
            Some(NodeIdentity { secret })
        } else {
            None
        }
    }

    /// Reads the stored form: Base64 of the 32 secret bytes, surrounding
    /// whitespace ignored.
    pub fn from_stored(text: &str) -> (identity: Result<NodeIdentity, SecurityError>)
        ensures
            match base64_decode_spec(crate::text::trim(text@)) {
                None => identity == Err::<NodeIdentity, SecurityError>(SecurityError::IdentityNotBase64),
                Some(b) => if b.len() == 32 {
                    identity matches Ok(i) && i.secret_key() == b
                } else {
                    identity == Err::<NodeIdentity, SecurityError>(SecurityError::IdentityLength)
                },
            },
    {
        let chars = chars_of(text);
        let trimmed = string_from_chars(&crate::text::trimmed(&chars));
        match base64_decode(trimmed.as_str()) {
            None => Err(SecurityError::IdentityNotBase64),
            Some(bytes) => if bytes.len() == 32 {
                Ok(NodeIdentity { secret: bytes })
            } else {
                Err(SecurityError::IdentityLength)
            },
        }
    }

    /// The stored form: Base64 of the secret key.
    pub fn to_stored(&self) -> (text: String)
        ensures
            text@ == base64_encode_spec(self.secret_key()),
            base64_decode_spec(text@) == Some(self.secret_key()),
    {
        base64_encode(&self.secret)
    }

    /// The Base64 public key.
    pub fn public_key(&self) -> (key: String)
        ensures
            key@ == base64_encode_spec(ed25519_public_spec(self.secret_key())),
            base64_decode_spec(key@) == Some(ed25519_public_spec(self.secret_key())),
            ed25519_public_spec(self.secret_key()).len() == 32,
            ed25519_key_valid(ed25519_public_spec(self.secret_key())),
    {
        proof {
            use_type_invariant(self);
        }
        let public = ed25519_public(&self.secret);
        base64_encode(&public)
    }

    /// The Base64 signature of a payload.
    pub fn sign(&self, payload: &[u8]) -> (signature: String)
        ensures
            signature@ == base64_encode_spec(ed25519_signature_spec(self.secret_key(), payload@)),
            base64_decode_spec(signature@) == Some(ed25519_signature_spec(self.secret_key(), payload@)),
            ed25519_signature_spec(self.secret_key(), payload@).len() == 64,
            ed25519_accepts(ed25519_public_spec(self.secret_key()), payload@, ed25519_signature_spec(self.secret_key(), payload@)),
    {
        proof {
            use_type_invariant(self);
        }
        let signature = ed25519_sign(&self.secret, payload);
        base64_encode(&signature)
    }

    /// Checks a Base64 signature of a payload under a Base64 public key.
    pub fn verify(public_key: &str, payload: &[u8], signature: &str) -> (r: Result<(), SecurityError>)
        ensures
            r == verify_spec(public_key@, payload@, signature@),
    {
        let public = match base64_decode(public_key) {
            None => return Err(SecurityError::KeyNotBase64),
            Some(p) => p,
        };
        if public.len() != 32 {
            return Err(SecurityError::KeyLength);
        }
        let signature_bytes = match base64_decode(signature) {
            None => {
                // The key is checked before the signature text: a signature of
                // no bytes makes the check report only on the key.
                let check = ed25519_verify(&public, payload, &[]);
                if check == SignatureCheck::BadKey {
                    return Err(SecurityError::InvalidKey);
                }
                return Err(SecurityError::SignatureNotBase64);
            },
            Some(s) => s,
        };
        match ed25519_verify(&public, payload, &signature_bytes) {
            SignatureCheck::BadKey => Err(SecurityError::InvalidKey),
            SignatureCheck::BadSignature => Err(SecurityError::InvalidSignature),
            SignatureCheck::Rejected => Err(SecurityError::VerificationFailed),
            SignatureCheck::Accepted => Ok(()),
        }
    }
}

/// A signature made by an identity verifies under that identity's public key.
pub proof fn lemma_own_signature_verifies(secret: Seq<u8>, payload: Seq<u8>)
    requires
        secret.len() == 32,
        base64_decode_spec(base64_encode_spec(ed25519_public_spec(secret))) == Some(ed25519_public_spec(secret)),
        base64_decode_spec(base64_encode_spec(ed25519_signature_spec(secret, payload))) == Some(
            ed25519_signature_spec(secret, payload),
        ),
        ed25519_public_spec(secret).len() == 32,
        ed25519_key_valid(ed25519_public_spec(secret)),
        ed25519_signature_spec(secret, payload).len() == 64,
        ed25519_accepts(ed25519_public_spec(secret), payload, ed25519_signature_spec(secret, payload)),
    ensures
        verify_spec(
            base64_encode_spec(ed25519_public_spec(secret)),
            payload,
            base64_encode_spec(ed25519_signature_spec(secret, payload)),
        ) == Ok::<(), SecurityError>(()),
{
}

// ---------------------------------------------------------------------------
// Pairing payload
// ---------------------------------------------------------------------------

/// `bution-pair-v1:<node>:<peer>:<decision>` as UTF-8 bytes.
pub open spec fn pairing_payload_spec(node_id: u128, peer_id: u128, decision: Seq<char>) -> Seq<u8> {
    crate::text::utf8_bytes(
        "bution-pair-v1:"@ + uuid_text_spec(node_id) + seq![':'] + uuid_text_spec(peer_id) + seq![':'] + decision,
    )
}

/// The bytes that a pairing decision signs.
pub fn pairing_payload(node_id: u128, peer_id: u128, decision: &str) -> (payload: Vec<u8>)
    ensures
        payload@ == pairing_payload_spec(node_id, peer_id, decision@),
{
    let mut text = chars_of("bution-pair-v1:");
    push_uuid(&mut text, node_id);
    text.push(':');
    push_uuid(&mut text, peer_id);
    text.push(':');
    append_chars(&mut text, &chars_of(decision));
    proof {
        assert(text@ =~= "bution-pair-v1:"@ + uuid_text_spec(node_id) + seq![':'] + uuid_text_spec(peer_id)
            + seq![':'] + decision@);
    }
    let s = string_from_chars(&text);
    let bytes = s.as_str().as_bytes();
    slice_to_vec(bytes)
}

fn slice_to_vec(bytes: &[u8]) -> (v: Vec<u8>)
    ensures
        v@ == bytes@,
{
    let mut v: Vec<u8> = Vec::new();
    for i in 0..bytes.len()
        invariant
            v@ == bytes@.take(i as int),
    {
        v.push(bytes[i]);
        proof {
            assert(bytes@.take(i + 1) == bytes@.take(i as int).push(bytes@[i as int]));
        }
    }
    proof {
        assert(bytes@.take(bytes@.len() as int) == bytes@);
    }
    v
}

/// A node may not pair with itself.
pub fn validate_distinct_identity(local_id: u128, remote_id: u128) -> (r: Result<(), SecurityError>)
    ensures
        r is Err <==> local_id == remote_id,
        r is Err ==> r == Err::<(), SecurityError>(SecurityError::SelfPairing),
{
    if local_id == remote_id {
        Err(SecurityError::SelfPairing)
    } else {
        Ok(())
    }
}

} // verus!
