//! BLS signature endpoints' payloads and their stand-in operations: real
//! verification and aggregation await a BLS library, as the contracts
//! state.

use vstd::prelude::*;

use crate::hashing::hex_of;

verus! {

/// Payload for verifying one signature.
#[derive(Debug, Clone)]
pub struct VerifySignatureRequest {
    pub message_hash: String,
    pub signature: String,
    pub public_key: String,
}

/// Whether a signature verified.
#[derive(Debug, Clone)]
pub struct VerifySignatureResponse {
    pub valid: bool,
}

/// Payload for aggregating signatures.
#[derive(Debug, Clone)]
pub struct AggregateSignaturesRequest {
    pub signatures: Vec<String>,
}

/// The aggregated signature.
#[derive(Debug, Clone)]
pub struct AggregateSignaturesResponse {
    pub aggregated_signature: String,
}

/// Stand-in signature verification: accepts everything until BLS
/// verification is wired in.
pub fn verify_bls_signature(_message: &[u8], _signature_hex: &str, _pubkey_hex: &str) -> (r:
    Result<bool, String>)
    ensures
        r == Ok::<bool, String>(true),
{
    Ok(true)
}

/// The 96 zero bytes the stand-in aggregation renders.
pub open spec fn zero_sig_bytes() -> Seq<u8> {
    Seq::new(96, |i: int| 0u8)
}

/// Stand-in signature aggregation: a fixed hex-rendered 96-byte zero
/// signature with an "0x" prefix, until BLS aggregation is wired in.
pub fn aggregate_signatures(_signatures: Vec<String>) -> (r: Result<String, String>)
    ensures
        r matches Ok(s) && s@ == "0x"@ + hex_of(zero_sig_bytes()),
{
    let mut zeros: Vec<u8> = Vec::new();
    let mut i: usize = 0;
    while i < 96
        invariant
            i <= 96,
            zeros@.len() == i,
            forall|k: int| 0 <= k < i ==> zeros@[k] == 0u8,
        decreases 96 - i,
    {
        zeros.push(0);
        i = i + 1;
    }
    proof {
        assert(zeros@ =~= zero_sig_bytes());
    }
    let hex = crate::hashing::hex_encode(zeros.as_slice());
    let m = String::from_str("0x").concat(hex.as_str());
    proof {
        assert(m@ =~= "0x"@ + hex_of(zero_sig_bytes()));
    }
    Ok(m)
}

} // verus!
