//! Authentication of an inbound request: an Ed25519 signature, sent in hex,
//! over the timestamp followed by the raw body.
use vstd::prelude::*;
use vstd::utf8::encode_utf8;
use ed25519_dalek::{Signature, Verifier, VerifyingKey};

verus! {

/// Why a request was refused.
#[derive(Clone, Copy, Debug, PartialEq, Eq, Structural)]
pub enum VerificationFailure {
    /// The signature does not match the body and timestamp.
    BadSignature,
    /// The signature, timestamp or key is absent or not in its encoding.
    MalformedInput,
}

/// The value of a hex digit, or -1 for any other character.
pub open spec fn hex_digit(c: char) -> int {
    if '0' <= c && c <= '9' {
        c as int - '0' as int
    } else if 'a' <= c && c <= 'f' {
        c as int - 'a' as int + 10
    } else if 'A' <= c && c <= 'F' {
        c as int - 'A' as int + 10
    } else {
        -1
    }
}

pub open spec fn is_hex(s: Seq<char>) -> bool {
    s.len() % 2 == 0 && forall|i: int| 0 <= i < s.len() ==> hex_digit(#[trigger] s[i]) >= 0
}

/// The bytes that a string of hex digit pairs spells.
pub open spec fn hex_bytes(s: Seq<char>) -> Seq<u8> {
    Seq::new(s.len() / 2, |i: int| (hex_digit(s[2 * i]) * 16 + hex_digit(s[2 * i + 1])) as u8)
}

/// Whether Ed25519 accepts `sig` for `msg` under the public key `key`.
pub uninterp spec fn ed25519_accepts(key: Seq<u8>, msg: Seq<u8>, sig: Seq<u8>) -> bool;

/// What the signed message is: the timestamp's bytes, then the body.
pub open spec fn signed_message(timestamp: Seq<char>, body: Seq<u8>) -> Seq<u8> {
    encode_utf8(timestamp) + body
}

/// Whether the inputs are present and in their encodings: 64 signature
/// bytes and 32 key bytes in hex, and a timestamp.
pub open spec fn well_formed(signature: Seq<char>, timestamp: Seq<char>, public_key: Seq<char>) -> bool {
    &&& is_hex(signature) && signature.len() == 128
    &&& is_hex(public_key) && public_key.len() == 64
    &&& timestamp.len() > 0
}

fn digit_value(c: char) -> (r: Option<u8>)
    ensures
        match r {
            Some(v) => hex_digit(c) == v as int,
            None => hex_digit(c) == -1,
        },
{
    if '0' <= c && c <= '9' {
        Some((c as u32 - '0' as u32) as u8)
    } else if 'a' <= c && c <= 'f' {
        Some((c as u32 - 'a' as u32 + 10) as u8)
    } else if 'A' <= c && c <= 'F' {
        Some((c as u32 - 'A' as u32 + 10) as u8)
    } else {
        None
    }
}

/// Reads a string of hex digit pairs, upper or lower case.
pub fn decode_hex(s: &str) -> (r: Option<Vec<u8>>)
    ensures
        match r {
            Some(v) => is_hex(s@) && v@ == hex_bytes(s@),
            None => !is_hex(s@),
        },
{
    let len = s.unicode_len();
    if len % 2 != 0 {
        return None;
    }
    let mut out: Vec<u8> = Vec::new();
    let mut i: usize = 0;
    while i < len / 2
        invariant
            len == s@.len(),
            len % 2 == 0,
            i <= len / 2,
            out@.len() == i,
            forall|j: int| 0 <= j < 2 * i ==> hex_digit(#[trigger] s@[j]) >= 0,
            forall|j: int| 0 <= j < i ==> #[trigger] out@[j] == hex_bytes(s@)[j],
        decreases len / 2 - i,
    {
        let hi = digit_value(s.get_char(2 * i));
        let lo = digit_value(s.get_char(2 * i + 1));
        match (hi, lo) {
            (Some(h), Some(l)) => {
                assert(h < 16 && l < 16);
                out.push(h * 16 + l);
            },
            _ => {
                return None;
            },
        }
        i = i + 1;
    }
    assert(out@ =~= hex_bytes(s@));
    Some(out)
}

/// Relies on ed25519_dalek's VerifyingKey::from_bytes and its Verifier::verify:
/// whether the key is a valid point and the signature checks. The verdict is
/// a function of the three byte strings alone.
#[verifier::external_body]
fn ed25519_verify(key: &Vec<u8>, msg: &Vec<u8>, sig: &Vec<u8>) -> (r: bool)
    requires
        key@.len() == 32,
        sig@.len() == 64,
    ensures
        r == ed25519_accepts(key@, msg@, sig@),
{
    let key: [u8; 32] = key.as_slice().try_into().unwrap();
    let sig = Signature::from_bytes(sig.as_slice().try_into().unwrap());
    match VerifyingKey::from_bytes(&key) {
        Ok(k) => k.verify(msg.as_slice(), &sig).is_ok(),
        Err(_) => false,
    }
}

/// Checks that `signature` (hex) signs the timestamp followed by `body` under
/// `public_key` (hex). Nothing in the body is read but its bytes.
pub fn verify(body: &[u8], signature: &str, timestamp: &str, public_key: &str) -> (r: Result<
    (),
    VerificationFailure,
>)
    ensures
        !well_formed(signature@, timestamp@, public_key@) ==> r == Err::<(), VerificationFailure>(
            VerificationFailure::MalformedInput,
        ),
        well_formed(signature@, timestamp@, public_key@) ==> (r is Ok <==> ed25519_accepts(
            hex_bytes(public_key@),
            signed_message(timestamp@, body@),
            hex_bytes(signature@),
        )),
        well_formed(signature@, timestamp@, public_key@) && r is Err ==> r == Err::<
            (),
            VerificationFailure,
        >(VerificationFailure::BadSignature),
{
    if timestamp.unicode_len() == 0 || signature.unicode_len() != 128 || public_key.unicode_len()
        != 64 {
        return Err(VerificationFailure::MalformedInput);
    }
    let sig = match decode_hex(signature) {
        Some(b) => b,
        None => {
            return Err(VerificationFailure::MalformedInput);
        },
    };
    let key = match decode_hex(public_key) {
        Some(b) => b,
        None => {
            return Err(VerificationFailure::MalformedInput);
        },
    };
    let ts = timestamp.as_bytes();
    let mut msg: Vec<u8> = Vec::new();
    let mut i: usize = 0;
    while i < ts.len()
        invariant
            i <= ts@.len(),
            msg@ == ts@.take(i as int),
        decreases ts@.len() - i,
    {
        msg.push(ts[i]);
        assert(ts@.take(i + 1) =~= ts@.take(i as int).push(ts@[i as int]));
        i = i + 1;
    }
    let mut j: usize = 0;
    while j < body.len()
        invariant
            j <= body@.len(),
            msg@ == ts@ + body@.take(j as int),
        decreases body@.len() - j,
    {
        msg.push(body[j]);
        assert(body@.take(j + 1) =~= body@.take(j as int).push(body@[j as int]));
        j = j + 1;
    }
    assert(ts@.take(ts@.len() as int) =~= ts@);
    assert(body@.take(body@.len() as int) =~= body@);
    if ed25519_verify(&key, &msg, &sig) {
        Ok(())
    } else {
        Err(VerificationFailure::BadSignature)
    }
}

} // verus!
