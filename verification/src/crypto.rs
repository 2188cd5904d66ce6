//! The trusted boundary to the outside cryptographic and codec crates: the
//! ICRC-3 representation-independent value hash, SHA3-256, HMAC-SHA3-256, and
//! the CBOR shapes used by challenge tokens. Each result that is a pure
//! function of its input is given an uninterpreted name that the contracts of
//! the rest of the library speak of.

use vstd::prelude::*;
use crate::val::Val;
use hmac::Mac;
use hmac::digest::KeyInit;
use sha3::Digest;
use icrc_ledger_types::icrc::generic_value::ICRC3Value;

verus! {

#[verifier::external_type_specification]
#[verifier::external_body]
pub struct ExIcrc3Value(ICRC3Value);

/// Injects [`Val`] into `icrc_ledger_types`' `ICRC3Value`, variant by
/// variant; it exists only so that [`val_hash`] can call the outside hash.
#[verifier::external_body]
fn icrc3_value_of(v: &Val) -> ICRC3Value {
    match v {
        Val::Blob(b) => ICRC3Value::Blob(serde_bytes::ByteBuf::from(b.clone())),
        Val::Text(s) => ICRC3Value::Text(s.clone()),
        Val::Nat(n) => ICRC3Value::Nat(candid::Nat::from(*n)),
        Val::Int(i) => ICRC3Value::Int(candid::Int::from(*i)),
        Val::Array(xs) => ICRC3Value::Array(xs.iter().map(icrc3_value_of).collect()),
        Val::Dict(es) => ICRC3Value::Map(
            es.iter().map(|e| (e.0.clone(), icrc3_value_of(&e.1))).collect(),
        ),
    }
}

/// The ICRC-3 representation-independent hash of a structured value: 32
/// bytes, a function of the value alone.
pub uninterp spec fn hash_of(v: Val) -> Seq<u8>;

/// Relies on `ICRC3Value::hash` of icrc-ledger-types: the ICRC-3
/// representation-independent hash, 32 bytes, deterministic in the value.
#[verifier::external_body]
pub fn val_hash(v: &Val) -> (r: Vec<u8>)
    ensures
        r@ == hash_of(*v),
        r@.len() == 32,
{
    icrc3_value_of(v).hash().to_vec()
}

/// The SHA3-256 digest of a byte string: 32 bytes, a function of the input
/// alone.
pub uninterp spec fn sha3_of(data: Seq<u8>) -> Seq<u8>;

/// Relies on `sha3::Sha3_256`: the SHA3-256 digest, 32 bytes, deterministic
/// in the input.
#[verifier::external_body]
pub fn sha3_256(data: &Vec<u8>) -> (r: Vec<u8>)
    ensures
        r@ == sha3_of(data@),
        r@.len() == 32,
{
    sha3::Sha3_256::digest(data.as_slice()).to_vec()
}

/// The HMAC-SHA3-256 of a message under a key: 32 bytes, a function of key
/// and message alone.
pub uninterp spec fn mac_of(key: Seq<u8>, data: Seq<u8>) -> Seq<u8>;

/// Relies on `hmac::SimpleHmac<sha3::Sha3_256>`: HMAC-SHA3-256, which takes
/// keys of any length, 32 bytes out, deterministic in key and message.
#[verifier::external_body]
pub fn mac_256(key: &Vec<u8>, data: &Vec<u8>) -> (r: Vec<u8>)
    ensures
        r@ == mac_of(key@, data@),
        r@.len() == 32,
{
    let mut mac = hmac::SimpleHmac::<sha3::Sha3_256>::new_from_slice(key.as_slice())
        .expect("HMAC accepts keys of any length");
    mac.update(data.as_slice());
    mac.finalize().into_bytes().to_vec()
}

/// The CBOR encoding of a 64-bit unsigned integer.
pub uninterp spec fn cbor_of_u64(x: u64) -> Seq<u8>;

/// What ciborium yields when decoding a byte string as a 64-bit unsigned
/// integer: a function of the bytes alone.
pub uninterp spec fn cbor_parse_u64_of(c: Seq<u8>) -> Option<u64>;

/// Relies on `ciborium::into_writer`: the CBOR encoding of `x`, deterministic
/// in `x`; decoding it with `ciborium::from_reader` (see [`cbor_parse_u64`])
/// gives `x` back.
#[verifier::external_body]
pub fn cbor_u64(x: u64) -> (r: Vec<u8>)
    ensures
        r@ == cbor_of_u64(x),
        cbor_parse_u64_of(r@) == Some(x),
{
    let mut buf: Vec<u8> = Vec::new();
    ciborium::into_writer(&x, &mut buf).expect("CBOR encoding of an integer cannot fail");
    buf
}

/// Relies on `ciborium::from_reader`: decodes a 64-bit unsigned integer,
/// deterministically in the input bytes.
#[verifier::external_body]
pub fn cbor_parse_u64(c: &Vec<u8>) -> (r: Option<u64>)
    ensures
        r == cbor_parse_u64_of(c@),
{
    ciborium::from_reader(c.as_slice()).ok()
}

/// The CBOR encoding of a two-element array of byte vectors.
pub uninterp spec fn cbor_of_pair(a: Seq<u8>, b: Seq<u8>) -> Seq<u8>;

/// What ciborium yields when decoding a byte string as a two-element array of
/// byte vectors: a function of the bytes alone.
pub uninterp spec fn cbor_parse_pair_of(c: Seq<u8>) -> Option<(Seq<u8>, Seq<u8>)>;

/// Relies on `ciborium::into_writer`: the CBOR encoding of the two-element
/// array `[a, b]`, deterministic in its inputs; decoding it with
/// `ciborium::from_reader` (see [`cbor_parse_pair`]) gives `[a, b]` back.
#[verifier::external_body]
pub fn cbor_pair(a: &Vec<u8>, b: &Vec<u8>) -> (r: Vec<u8>)
    ensures
        r@ == cbor_of_pair(a@, b@),
        cbor_parse_pair_of(r@) == Some((a@, b@)),
{
    let mut buf: Vec<u8> = Vec::new();
    ciborium::into_writer(&vec![a, b], &mut buf).expect("CBOR encoding of an array cannot fail");
    buf
}

/// Relies on `ciborium::from_reader`: decodes a two-element array of byte
/// vectors, deterministically in the input bytes.
#[verifier::external_body]
pub fn cbor_parse_pair(c: &Vec<u8>) -> (r: Option<(Vec<u8>, Vec<u8>)>)
    ensures
        match r {
            Some(p) => cbor_parse_pair_of(c@) == Some((p.0@, p.1@)),
            None => cbor_parse_pair_of(c@) is None,
        },
{
    ciborium::from_reader(c.as_slice()).ok()
}

} // verus!
