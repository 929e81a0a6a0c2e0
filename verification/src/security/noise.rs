//! Noise static identity and the length-prefixed framing of the control channel.
use vstd::prelude::*;

use super::{base64_decode, base64_decode_spec, base64_encode, base64_encode_spec};

verus! {

/// The Noise protocol in use.
pub const NOISE_PATTERN: &'static str = "Noise_XX_25519_ChaChaPoly_BLAKE2s";

/// The largest frame, in bytes.
pub const MAX_FRAME: usize = 65535;

/// The bytes that transport encryption adds to a message.
pub const TAG_LENGTH: usize = 16;

/// A node's static Noise key pair.
#[derive(Debug, PartialEq, Eq)]
pub struct NoiseIdentity {
    pub private_key: Vec<u8>,
    pub public_key: Vec<u8>,
}

/// Why a Noise identity or frame was refused.
#[derive(Debug, Clone, Copy, PartialEq, Eq, Structural)]
pub enum NoiseError {
    PrivateKeyNotBase64,
    PublicKeyNotBase64,
    KeyLength,
    FrameLength,
    MessageTooLarge,
}

impl NoiseError {
    /// The message shown for this error.
    pub fn message(&self) -> (text: &'static str)
        ensures
            text@ == (match *self {
                NoiseError::PrivateKeyNotBase64 => "Noise private key is invalid"@,
                NoiseError::PublicKeyNotBase64 => "Noise public key is invalid"@,
                NoiseError::KeyLength => "Noise identity keys must contain exactly 32 bytes"@,
                NoiseError::FrameLength => "invalid Noise frame length"@,
                NoiseError::MessageTooLarge => "control message is too large"@,
            }),
    {
        match self {
            NoiseError::PrivateKeyNotBase64 => "Noise private key is invalid",
            NoiseError::PublicKeyNotBase64 => "Noise public key is invalid",
            NoiseError::KeyLength => "Noise identity keys must contain exactly 32 bytes",
            NoiseError::FrameLength => "invalid Noise frame length",
            NoiseError::MessageTooLarge => "control message is too large",
        }
    }
}

impl NoiseIdentity {
    /// Both keys are 32 bytes long.
    pub fn validate(&self) -> (r: Result<(), NoiseError>)
        ensures
            r is Ok <==> (self.private_key@.len() == 32 && self.public_key@.len() == 32),
            r is Err ==> r == Err::<(), NoiseError>(NoiseError::KeyLength),
    {
        if self.private_key.len() != 32 || self.public_key.len() != 32 {
            Err(NoiseError::KeyLength)
        } else {
            Ok(())
        }
    }

    /// The identity stored as Base64 private and public keys.
    pub fn from_stored(private_key: &str, public_key: &str) -> (r: Result<NoiseIdentity, NoiseError>)
        ensures
            match (base64_decode_spec(private_key@), base64_decode_spec(public_key@)) {
                (None, _) => r == Err::<NoiseIdentity, NoiseError>(NoiseError::PrivateKeyNotBase64),
                (Some(_), None) => r == Err::<NoiseIdentity, NoiseError>(NoiseError::PublicKeyNotBase64),
                (Some(private), Some(public)) => if private.len() == 32 && public.len() == 32 {
                    r matches Ok(i) && i.private_key@ == private && i.public_key@ == public
                } else {
                    r == Err::<NoiseIdentity, NoiseError>(NoiseError::KeyLength)
                },
            },
    {
        let private = match base64_decode(private_key) {
            Some(p) => p,
            None => return Err(NoiseError::PrivateKeyNotBase64),
        };
        let public = match base64_decode(public_key) {
            Some(p) => p,
            None => return Err(NoiseError::PublicKeyNotBase64),
        };
        let identity = NoiseIdentity { private_key: private, public_key: public };
        match identity.validate() {
            Ok(()) => Ok(identity),
            Err(e) => Err(e),
        }
    }

    /// The Base64 private key, as stored.
    pub fn stored_private_key(&self) -> (text: String)
        ensures
            text@ == base64_encode_spec(self.private_key@),
            base64_decode_spec(text@) == Some(self.private_key@),
    {
        base64_encode(&self.private_key)
    }

    /// The Base64 public key, as shown to peers and stored.
    pub fn public_key(&self) -> (text: String)
        ensures
            text@ == base64_encode_spec(self.public_key@),
            base64_decode_spec(text@) == Some(self.public_key@),
    {
        base64_encode(&self.public_key)
    }
}

/// A frame: the payload length as four big-endian bytes, then the payload.
pub open spec fn frame_spec(payload: Seq<u8>) -> Seq<u8> {
    let n = payload.len();
    seq![(n / 16777216) as u8, ((n / 65536) % 256) as u8, ((n / 256) % 256) as u8, (n % 256) as u8] + payload
}

/// The length that a four-byte big-endian frame header announces.
pub open spec fn header_length(header: Seq<u8>) -> int {
    header[0] * 16777216 + header[1] * 65536 + header[2] * 256 + header[3]
}

/// Frames a payload of 1 to `MAX_FRAME` bytes.
pub fn encode_frame(payload: &[u8]) -> (r: Result<Vec<u8>, NoiseError>)
    ensures
        (0 < payload@.len() <= MAX_FRAME) ==> (r matches Ok(f) && f@ == frame_spec(payload@)),
        !(0 < payload@.len() <= MAX_FRAME) ==> r == Err::<Vec<u8>, NoiseError>(NoiseError::FrameLength),
{
    let n = payload.len();
    if n == 0 || n > MAX_FRAME {
        return Err(NoiseError::FrameLength);
    }
    let mut frame: Vec<u8> = Vec::new();
    frame.push((n / 16777216) as u8);
    frame.push(((n / 65536) % 256) as u8);
    frame.push(((n / 256) % 256) as u8);
    frame.push((n % 256) as u8);
    for i in 0..n
        invariant
            n == payload@.len(),
            frame@ == frame_spec(payload@).take(4 + i),
    {
        frame.push(payload[i]);
        proof {
            assert(frame_spec(payload@).take(4 + i + 1) == frame_spec(payload@).take(4 + i).push(payload@[i as int]));
        }
    }
    proof {
        assert(frame_spec(payload@).take(4 + n) == frame_spec(payload@));
    }
    Ok(frame)
}

/// The payload length a received frame header announces, if it is 1 to `MAX_FRAME`.
pub fn frame_length(header: &[u8]) -> (r: Result<usize, NoiseError>)
    requires
        header@.len() == 4,
    ensures
        (0 < header_length(header@) <= MAX_FRAME) ==> r == Ok::<usize, NoiseError>(header_length(header@) as usize),
        !(0 < header_length(header@) <= MAX_FRAME) ==> r == Err::<usize, NoiseError>(NoiseError::FrameLength),
{
    let length: u64 = (header[0] as u64) * 16777216 + (header[1] as u64) * 65536 + (header[2] as u64) * 256
        + (header[3] as u64);
    if length == 0 || length > 65535 {
        Err(NoiseError::FrameLength)
    } else {
        Ok(length as usize)
    }
}

/// A plaintext fits one frame once encryption adds its tag.
pub fn check_plaintext(length: usize) -> (r: Result<(), NoiseError>)
    ensures
        r is Ok <==> length <= MAX_FRAME - TAG_LENGTH,
        r is Err ==> r == Err::<(), NoiseError>(NoiseError::MessageTooLarge),
{
    if length > MAX_FRAME - TAG_LENGTH {
        Err(NoiseError::MessageTooLarge)
    } else {
        Ok(())
    }
}

/// A framed payload's header announces exactly the payload's length, and the
/// payload follows it unchanged: reading back what was written gives it back.
pub proof fn lemma_frame_round_trip(payload: Seq<u8>)
    requires
        0 < payload.len() <= MAX_FRAME,
    ensures
        header_length(frame_spec(payload).take(4)) == payload.len(),
        frame_spec(payload).skip(4) == payload,
{
    let n = payload.len() as int;
    let f = frame_spec(payload);
    assert(f.skip(4) =~= payload);
    assert(n / 16777216 == 0);
    assert((n / 65536) % 256 == n / 65536);
    assert(n == (n / 65536) * 65536 + ((n / 256) % 256) * 256 + n % 256) by (nonlinear_arith)
        requires
            0 < n <= 65535,
    ;
}

} // verus!
