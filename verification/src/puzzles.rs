//! Puzzle-hash derivation for multi-party contracts, plus the placeholder
//! compile/validate hooks the escrow spend path will eventually fill in.

use vstd::prelude::*;
use vstd::string::StringSliceAdditionalSpecFns;

use crate::hashing::{hash_bytes, hex_of, sha256_of};

verus! {

/// The little-endian rendering of a count: `k` bytes, least significant
/// first.
pub open spec fn le_bytes(n: int, k: nat) -> Seq<u8>
    decreases k,
{
    if k == 0 {
        Seq::empty()
    } else {
        seq![(n % 256) as u8] + le_bytes(n / 256, (k - 1) as nat)
    }
}

/// The little-endian eight-byte rendering of a count.
pub open spec fn le_bytes8(n: int) -> Seq<u8> {
    le_bytes(n, 8)
}

/// The byte string a contract's puzzle hash commits to: every participant
/// key, then the terms hash, then the required-signature count.
pub open spec fn puzzle_input(participants: Seq<String>, terms_hash: Seq<u8>, required_sigs: int) -> Seq<u8> {
    concat_participant_bytes(participants) + terms_hash + le_bytes8(required_sigs)
}

/// The participants' UTF-8 bytes, concatenated in order.
pub open spec fn concat_participant_bytes(participants: Seq<String>) -> Seq<u8>
    decreases participants.len(),
{
    if participants.len() == 0 {
        Seq::empty()
    } else {
        concat_participant_bytes(participants.drop_last()) + vstd::utf8::encode_utf8(
            participants.last()@,
        )
    }
}

/// A deterministic puzzle hash over participant keys, a terms hash and the
/// required signature count, as 64 lowercase hex characters.
pub fn generate_contract_puzzle_hash(participants: &Vec<String>, terms_hash: &str, required_sigs: usize) -> (r: Result<String, String>)
    ensures
        r matches Ok(h) && h@ == hex_of(
            sha256_of(
                puzzle_input(participants@, terms_hash.spec_bytes(), required_sigs as int),
            ),
        ) && h@.len() == 64,
{
    let mut buf: Vec<u8> = Vec::new();
    let mut i: usize = 0;
    while i < participants.len()
        invariant
            i <= participants@.len(),
            buf@ == concat_participant_bytes(participants@.subrange(0, i as int)),
        decreases participants@.len() - i,
    {
        append_bytes(&mut buf, participants[i].as_str().as_bytes());
        proof {
            let ext = participants@.subrange(0, i + 1);
            assert(ext.drop_last() =~= participants@.subrange(0, i as int));
            assert(ext.last() == participants@[i as int]);
            assert(buf@ =~= concat_participant_bytes(participants@.subrange(0, i + 1)));
        }
        i = i + 1;
    }
    proof {
        assert(participants@.subrange(0, participants@.len() as int) =~= participants@);
    }
    append_bytes(&mut buf, terms_hash.as_bytes());
    let mut n: u64 = required_sigs as u64;
    let ghost count: int = required_sigs as int;
    let ghost pre_full = concat_participant_bytes(participants@) + terms_hash.spec_bytes();
    let mut k: usize = 0;
    while k < 8
        invariant
            k <= 8,
            buf@ + le_bytes(n as int, (8 - k) as nat) == pre_full + le_bytes(count, 8),
        decreases 8 - k,
    {
        let ghost pre_buf = buf@;
        let ghost pre_n = n as int;
        let b: u8 = (n % 256) as u8;
        buf.push(b);
        n = n / 256;
        k = k + 1;
        proof {
            assert(le_bytes(pre_n, (8 - k + 1) as nat) == seq![(pre_n % 256) as u8] + le_bytes(
                pre_n / 256,
                (8 - k) as nat,
            ));
            assert(buf@ + le_bytes(n as int, (8 - k) as nat) =~= pre_buf + le_bytes(
                pre_n,
                (8 - k + 1) as nat,
            ));
        }
    }
    proof {
        assert(le_bytes(n as int, 0) =~= Seq::<u8>::empty());
        assert(buf@ + le_bytes(n as int, 0) =~= buf@);
        assert(buf@ =~= puzzle_input(
            participants@,
            terms_hash.spec_bytes(),
            required_sigs as int,
        ));
    }
    Ok(hash_bytes(buf.as_slice()))
}

/// Placeholder for CLVM compilation: the escrow spend path is not yet
/// designed, so this returns a fixed stand-in program.
pub fn compile_puzzle(_puzzle_template: &str, _participants: &Vec<String>, _terms_hash: &str) -> (r: Result<Vec<u8>, String>)
    ensures
        r matches Ok(v) && v@ == seq![1u8, 2u8, 3u8, 4u8],
{
    let mut v: Vec<u8> = Vec::new();
    v.push(1);
    v.push(2);
    v.push(3);
    v.push(4);
    proof {
        assert(v@ =~= seq![1u8, 2u8, 3u8, 4u8]);
    }
    Ok(v)
}

/// The textual puzzle reveal for a puzzle hash.
pub fn generate_puzzle_reveal(puzzle_hash: &str) -> (r: String)
    ensures
        r@ == "(puzzle_reveal "@ + puzzle_hash@ + ")"@,
{
    let m = String::from_str("(puzzle_reveal ").concat(puzzle_hash).concat(")");
    proof {
        assert(m@ =~= "(puzzle_reveal "@ + puzzle_hash@ + ")"@);
    }
    m
}

/// Placeholder for CLVM condition validation: accepts everything until the
/// escrow spend path is designed.
pub fn validate_puzzle_conditions(_puzzle: &[u8], _solution: &[u8]) -> (r: Result<bool, String>)
    ensures
        r == Ok::<bool, String>(true),
{
    Ok(true)
}

/// Append a byte slice to a buffer.
fn append_bytes(buf: &mut Vec<u8>, data: &[u8])
    ensures
        final(buf)@ == old(buf)@ + data@,
{
    let mut i: usize = 0;
    while i < data.len()
        invariant
            i <= data@.len(),
            buf@ == old(buf)@ + data@.subrange(0, i as int),
        decreases data@.len() - i,
    {
        buf.push(data[i]);
        proof {
            assert(buf@ =~= old(buf)@ + data@.subrange(0, i + 1));
        }
        i = i + 1;
    }
    proof {
        assert(old(buf)@ + data@.subrange(0, data@.len() as int) =~= old(buf)@ + data@);
    }
}

} // verus!

