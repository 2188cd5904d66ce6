//! Proof-of-possession challenges for token creation: an HMAC over explicit
//! payload bytes under the ledger's secret, stamped with its issue time and
//! carried as a compact token.

use vstd::prelude::*;
use crate::bytesutil::{bytes_clone, bytes_eq};
use crate::crypto::{
    cbor_of_pair, cbor_of_u64, cbor_pair, cbor_parse_pair, cbor_parse_pair_of, cbor_parse_u64,
    cbor_parse_u64_of, mac_256, mac_of,
};

verus! {

/// The authenticator of a challenge: the first half of the HMAC of the
/// payload under the key.
pub open spec fn challenge_mac(key: Seq<u8>, payload: Seq<u8>) -> Seq<u8> {
    mac_of(key, payload).take(16)
}

/// A challenge subject: the author principal and the asset hash it binds.
pub struct ChallengeArg {
    pub author: Vec<u8>,
    pub asset_hash: Vec<u8>,
}

impl ChallengeArg {
    /// The payload bytes the authenticator covers: author then asset hash.
    pub open spec fn payload(self) -> Seq<u8> {
        self.author@ + self.asset_hash@
    }

    /// The same payload, built.
    pub fn payload_bytes(&self) -> (r: Vec<u8>)
        ensures
            r@ == self.payload(),
    {
        let mut r = bytes_clone(&self.author);
        let mut h = bytes_clone(&self.asset_hash);
        r.append(&mut h);
        r
    }

    /// Issues a challenge token for this subject at `timestamp`: the pair of
    /// the encoded timestamp and the authenticator.
    pub fn challenge(&self, key: &Vec<u8>, timestamp: u64) -> (r: Vec<u8>)
        ensures
            r@ == cbor_of_pair(cbor_of_u64(timestamp), challenge_mac(key@, self.payload())),
            cbor_parse_pair_of(r@) == Some(
                (cbor_of_u64(timestamp), challenge_mac(key@, self.payload())),
            ),
    {
        let payload = self.payload_bytes();
        let mut mac = mac_256(key, &payload);
        mac.truncate(16);
        let ts = crate::crypto::cbor_u64(timestamp);
        cbor_pair(&ts, &mac)
    }

    /// Verifies a challenge token: it must decode as a pair, carry a
    /// timestamp no older than `expire_at`, and authenticate this subject
    /// under `key`.
    pub fn verify(&self, key: &Vec<u8>, expire_at: u64, challenge: &Vec<u8>) -> (r: Result<
        (),
        String,
    >)
        ensures
            r is Ok <==> (cbor_parse_pair_of(challenge@) matches Some(p) && (cbor_parse_u64_of(
                p.0,
            ) matches Some(ts) && ts >= expire_at && p.1 == challenge_mac(key@, self.payload()))),
    {
        let parts = match cbor_parse_pair(challenge) {
            Some(p) => p,
            None => {
                return Err("failed to decode the challenge".to_owned());
            },
        };
        let ts = match cbor_parse_u64(&parts.0) {
            Some(t) => t,
            None => {
                return Err("failed to decode timestamp in the challenge".to_owned());
            },
        };
        if ts < expire_at {
            return Err("the challenge is expired".to_owned());
        }
        let payload = self.payload_bytes();
        let mut mac = mac_256(key, &payload);
        mac.truncate(16);
        if !bytes_eq(&parts.1, &mac) {
            return Err("failed to verify the challenge".to_owned());
        }
        Ok(())
    }
}

/// A token issued by [`ChallengeArg::challenge`] verifies under the same key
/// and subject exactly when its timestamp has not lapsed.
pub proof fn lemma_challenge_round_trip(arg: ChallengeArg, key: Seq<u8>, timestamp: u64, expire_at: u64, tok: Seq<u8>)
    requires
        tok == cbor_of_pair(cbor_of_u64(timestamp), challenge_mac(key, arg.payload())),
        cbor_parse_pair_of(tok) == Some((cbor_of_u64(timestamp), challenge_mac(key, arg.payload()))),
        cbor_parse_u64_of(cbor_of_u64(timestamp)) == Some(timestamp),
    ensures
        (cbor_parse_pair_of(tok) matches Some(p) && (cbor_parse_u64_of(p.0) matches Some(ts) && ts
            >= expire_at && p.1 == challenge_mac(key, arg.payload()))) <==> timestamp >= expire_at,
{
}

} // verus!
