//! Bytes as hexadecimal text, digests and signatures.

use k256::ecdsa::signature::hazmat::PrehashSigner;
use k256::ecdsa::{RecoveryId, Signature, SigningKey};
use sha2::Digest;
use vstd::prelude::*;

verus! {

/// The value of a hexadecimal digit, in either case.
pub open spec fn hex_value(c: char) -> Option<int> {
    if '0' <= c <= '9' {
        Some(c as int - '0' as int)
    } else if 'a' <= c <= 'f' {
        Some(c as int - 'a' as int + 10)
    } else if 'A' <= c <= 'F' {
        Some(c as int - 'A' as int + 10)
    } else {
        None
    }
}

/// The digit for a value below sixteen, in lower case.
pub open spec fn hex_digit(v: int) -> char {
    if v < 10 {
        ('0' as int + v) as char
    } else {
        ('a' as int + v - 10) as char
    }
}

/// The bytes that a text writes: two digits for each.
pub open spec fn hex_bytes(s: Seq<char>) -> Option<Seq<u8>> {
    if s.len() % 2 == 0 && forall|i: int| 0 <= i < s.len() ==> hex_value(#[trigger] s[i]) is Some {
        Some(
            Seq::new(
                s.len() / 2,
                |i: int| (hex_value(s[2 * i])->0 * 16 + hex_value(s[2 * i + 1])->0) as u8,
            ),
        )
    } else {
        None
    }
}

/// Bytes as text: two digits for each, in lower case.
pub open spec fn hex_chars(b: Seq<u8>) -> Seq<char> {
    Seq::new(
        b.len() * 2,
        |i: int|
            if i % 2 == 0 {
                hex_digit(b[i / 2] as int / 16)
            } else {
                hex_digit(b[i / 2] as int % 16)
            },
    )
}

/// `hex::decode`: the bytes, where the text holds an even number of hexadecimal digits and nothing
/// else.
#[verifier::external_body]
pub(crate) fn hex_decode(s: &str) -> (r: Option<Vec<u8>>)
    ensures
        match r {
            Some(b) => hex_bytes(s@) == Some(b@),
            None => hex_bytes(s@) is None,
        },
{
    hex::decode(s).ok()
}

/// `hex::encode`: two digits for each byte, in lower case.
#[verifier::external_body]
pub(crate) fn hex_encode(b: &Vec<u8>) -> (r: String)
    ensures
        r@ == hex_chars(b@),
{
    hex::encode(b)
}

/// What was written as hexadecimal text is read back.
pub proof fn law_hex_round_trip(b: Seq<u8>)
    ensures
        hex_bytes(hex_chars(b)) == Some(b),
{
    let s = hex_chars(b);
    assert forall|i: int| 0 <= i < s.len() implies hex_value(#[trigger] s[i]) == Some(
        if i % 2 == 0 {
            b[i / 2] as int / 16
        } else {
            b[i / 2] as int % 16
        },
    ) by {
        lemma_digit_value(b[i / 2] as int / 16);
        lemma_digit_value(b[i / 2] as int % 16);
    }
    let r = hex_bytes(s)->0;
    assert forall|i: int| 0 <= i < b.len() implies r[i] == b[i] by {
        assert((2 * i) % 2 == 0 && (2 * i) / 2 == i && (2 * i + 1) % 2 == 1 && (2 * i + 1) / 2
            == i);
        assert(hex_value(s[2 * i]) == Some(b[i] as int / 16));
        assert(hex_value(s[2 * i + 1]) == Some(b[i] as int % 16));
    }
    assert(r =~= b);
}

proof fn lemma_digit_value(v: int)
    requires
        0 <= v < 16,
    ensures
        hex_value(hex_digit(v)) == Some(v),
{
}

/// The Keccak-256 digest of bytes.
pub uninterp spec fn keccak256(b: Seq<u8>) -> Seq<u8>;

/// `sha3::Keccak256::digest`: thirty-two bytes.
#[verifier::external_body]
pub(crate) fn keccak_digest(b: &Vec<u8>) -> (r: Vec<u8>)
    ensures
        r@ == keccak256(b@),
        r@.len() == 32,
{
    sha3::Keccak256::digest(b).to_vec()
}

/// The SHA-256 digest of bytes.
pub uninterp spec fn sha256(b: Seq<u8>) -> Seq<u8>;

/// `sha2::Sha256::digest`: thirty-two bytes.
#[verifier::external_body]
pub(crate) fn sha256_digest(b: &Vec<u8>) -> (r: Vec<u8>)
    ensures
        r@ == sha256(b@),
        r@.len() == 32,
{
    sha2::Sha256::digest(b).to_vec()
}

/// The number that bytes write, the most significant first.
pub open spec fn big_endian(b: Seq<u8>) -> int
    decreases b.len(),
{
    if b.len() == 0 {
        0
    } else {
        big_endian(b.drop_last()) * 256 + b.last()
    }
}

/// The order of the group of the curve secp256k1.
pub open spec fn curve_order() -> int {
    0xffff_ffff_ffff_ffff_ffff_ffff_ffff_fffe_baae_dce6_af48_a03b_bfd2_5e8c_d036_4141int
}

/// Thirty-two bytes that write a secret key: a number from one to below the group order.
pub open spec fn is_secret_key(key: Seq<u8>) -> bool {
    key.len() == 32 && 0 < big_endian(key) < curve_order()
}

/// `k256::ecdsa::SigningKey::from_bytes`: whether thirty-two bytes are a secret key, which they are
/// where they write a number from one to below the group order.
#[verifier::external_body]
pub(crate) fn accepts_secret_key(key: &Vec<u8>) -> (r: bool)
    requires
        key@.len() == 32,
    ensures
        r == is_secret_key(key@),
{
    SigningKey::from_bytes(key.as_slice().into()).is_ok()
}

/// The public key of a secret key, as an uncompressed point.
pub uninterp spec fn public_point(key: Seq<u8>) -> Seq<u8>;

/// The public key by `k256`'s `verifying_key` and `to_encoded_point`: one marking byte and two
/// coordinates of thirty-two bytes.
#[verifier::external_body]
pub(crate) fn public_key(key: &Vec<u8>) -> (r: Vec<u8>)
    requires
        is_secret_key(key@),
    ensures
        r@ == public_point(key@),
        r@.len() == 65,
{
    let key = SigningKey::from_bytes(key.as_slice().into()).unwrap();
    key.verifying_key().to_encoded_point(false).as_bytes().to_vec()
}

/// The signature of a digest, with the mark by which the public key can be recovered from it. The
/// nonce is derived from key and digest, so that both determine the signature.
pub uninterp spec fn recoverable_signature(key: Seq<u8>, digest: Seq<u8>) -> Option<(Seq<u8>, u8)>;

/// `k256`'s `sign_prehash` with a recovery id: sixty-four bytes and a mark of at most three, or a
/// failure.
#[verifier::external_body]
pub(crate) fn sign_digest(key: &Vec<u8>, digest: &Vec<u8>) -> (r: Option<(Vec<u8>, u8)>)
    requires
        is_secret_key(key@),
        digest@.len() == 32,
    ensures
        (match r {
            Some(s) => Some((s.0@, s.1)),
            None => None,
        }) == recoverable_signature(key@, digest@),
        r matches Some(s) ==> s.0@.len() == 64 && s.1 <= 3,
{
    let key = SigningKey::from_bytes(key.as_slice().into()).unwrap();
    match key.sign_prehash(digest.as_slice()) {
        Ok((signature, mark)) => {
            let signature: Signature = signature;
            let mark: RecoveryId = mark;
            Some((signature.to_bytes().to_vec(), mark.to_byte()))
        },
        Err(_) => None,
    }
}

} // verus!
