//! The instruction payload: a one-byte tag, then the variant's fields,
//! little-endian, with nothing after them.
use vstd::bytes::{
    lemma_auto_spec_u32_to_from_le_bytes, lemma_auto_spec_u64_to_from_le_bytes,
    spec_u32_from_le_bytes, spec_u32_to_le_bytes, spec_u64_from_le_bytes, spec_u64_to_le_bytes,
    u32_from_le_bytes, u32_to_le_bytes, u64_from_le_bytes, u64_to_le_bytes,
};
use crate::record::bytes_between;
use vstd::prelude::*;

verus! {

/// The operations the program offers.
#[derive(Clone, Copy, Debug, PartialEq, Eq, Structural)]
pub enum RewardInstruction {
    Init,
    Earn { points: u32 },
    Claim { required_points: u32, amount: u64 },
    MintToken { amount: u64 },
}

/// The instruction that `data` encodes, if it is well formed.
pub open spec fn parse_spec(data: Seq<u8>) -> Option<RewardInstruction> {
    if data.len() == 1 && data[0] == 0 {
        Some(RewardInstruction::Init)
    } else if data.len() == 5 && data[0] == 1 {
        Some(RewardInstruction::Earn { points: spec_u32_from_le_bytes(data.subrange(1, 5)) })
    } else if data.len() == 13 && data[0] == 2 {
        Some(
            RewardInstruction::Claim {
                required_points: spec_u32_from_le_bytes(data.subrange(1, 5)),
                amount: spec_u64_from_le_bytes(data.subrange(5, 13)),
            },
        )
    } else if data.len() == 9 && data[0] == 3 {
        Some(RewardInstruction::MintToken { amount: spec_u64_from_le_bytes(data.subrange(1, 9)) })
    } else {
        None
    }
}

/// The bytes that encode `ix`.
pub open spec fn serialize_spec(ix: RewardInstruction) -> Seq<u8> {
    match ix {
        RewardInstruction::Init => seq![0u8],
        RewardInstruction::Earn { points } => seq![1u8] + spec_u32_to_le_bytes(points),
        RewardInstruction::Claim { required_points, amount } => seq![2u8] + spec_u32_to_le_bytes(
            required_points,
        ) + spec_u64_to_le_bytes(amount),
        RewardInstruction::MintToken { amount } => seq![3u8] + spec_u64_to_le_bytes(amount),
    }
}

impl RewardInstruction {
    /// Decodes a payload; `None` for an unknown tag or a wrong length.
    pub fn unpack(data: &[u8]) -> (r: Option<RewardInstruction>)
        ensures
            r == parse_spec(data@),
    {
        if data.len() == 0 {
            return None;
        }
        let tag = data[0];
        let len = data.len();
        if tag == 0 && len == 1 {
            Some(RewardInstruction::Init)
        } else if tag == 1 && len == 5 {
            let points = u32_from_le_bytes(bytes_between(data, 1, 5));
            Some(RewardInstruction::Earn { points })
        } else if tag == 2 && len == 13 {
            let required_points = u32_from_le_bytes(bytes_between(data, 1, 5));
            let amount = u64_from_le_bytes(bytes_between(data, 5, 13));
            Some(RewardInstruction::Claim { required_points, amount })
        } else if tag == 3 && len == 9 {
            let amount = u64_from_le_bytes(bytes_between(data, 1, 9));
            Some(RewardInstruction::MintToken { amount })
        } else {
            None
        }
    }

    /// Encodes the instruction as a payload.
    pub fn pack(&self) -> (out: Vec<u8>)
        ensures
            out@ == serialize_spec(*self),
    {
        let mut out: Vec<u8> = Vec::new();
        match *self {
            RewardInstruction::Init => {
                out.push(0u8);
            },
            RewardInstruction::Earn { points } => {
                out.push(1u8);
                let mut p = u32_to_le_bytes(points);
                out.append(&mut p);
            },
            RewardInstruction::Claim { required_points, amount } => {
                out.push(2u8);
                let mut p = u32_to_le_bytes(required_points);
                out.append(&mut p);
                let mut a = u64_to_le_bytes(amount);
                out.append(&mut a);
            },
            RewardInstruction::MintToken { amount } => {
                out.push(3u8);
                let mut a = u64_to_le_bytes(amount);
                out.append(&mut a);
            },
        }
        assert(out@ =~= serialize_spec(*self));
        out
    }
}

/// Decoding an encoded instruction gives it back.
pub proof fn lemma_instruction_round_trip(ix: RewardInstruction)
    ensures
        parse_spec(serialize_spec(ix)) == Some(ix),
{
    lemma_auto_spec_u32_to_from_le_bytes();
    lemma_auto_spec_u64_to_from_le_bytes();
    let s = serialize_spec(ix);
    match ix {
        RewardInstruction::Init => {},
        RewardInstruction::Earn { points } => {
            assert(s.subrange(1, 5) =~= spec_u32_to_le_bytes(points));
        },
        RewardInstruction::Claim { required_points, amount } => {
            assert(s.subrange(1, 5) =~= spec_u32_to_le_bytes(required_points));
            assert(s.subrange(5, 13) =~= spec_u64_to_le_bytes(amount));
        },
        RewardInstruction::MintToken { amount } => {
            assert(s.subrange(1, 9) =~= spec_u64_to_le_bytes(amount));
        },
    }
}

} // verus!
