use vstd::bytes::{
    lemma_auto_spec_u32_to_from_le_bytes, spec_u32_from_le_bytes, spec_u32_to_le_bytes,
    u32_from_le_bytes, u32_to_le_bytes,
};
use vstd::prelude::*;

verus! {

broadcast use vstd::array::axiom_array_ext_equal;

/// Number of bytes a persisted record occupies: two `u32` counters and the
/// 32-byte identity of the token mint.
pub const RECORD_SIZE: usize = 40;

/// Persisted reward state.
#[derive(Clone, Copy, Debug, PartialEq, Eq)]
pub struct RewardAccount {
    pub total_points: u32,
    pub rewards_claimed: u32,
    pub mint: [u8; 32],
}

/// Why a byte buffer is not a record.
#[derive(Clone, Copy, Debug, PartialEq, Eq, Structural)]
pub enum DecodeError {
    /// The buffer is empty or all zero bytes: nothing was ever written there.
    Uninitialized,
    /// The buffer holds written bytes, but not exactly one record's worth.
    WrongLength,
}

/// The layout: `total_points` and `rewards_claimed` little-endian, then the mint.
pub open spec fn encode_spec(r: RewardAccount) -> Seq<u8> {
    spec_u32_to_le_bytes(r.total_points) + spec_u32_to_le_bytes(r.rewards_claimed) + r.mint@
}

/// Whether every byte is zero; true of an empty buffer.
pub open spec fn all_zero(bytes: Seq<u8>) -> bool {
    forall|i: int| 0 <= i < bytes.len() ==> bytes[i] == 0
}

/// The record that `bytes` holds, if it was written and has the record's
/// exact length.
pub open spec fn decode_spec(bytes: Seq<u8>) -> Result<RewardAccount, DecodeError> {
    if all_zero(bytes) {
        Err(DecodeError::Uninitialized)
    } else if bytes.len() != RECORD_SIZE {
        Err(DecodeError::WrongLength)
    } else {
        Ok(
            RewardAccount {
                total_points: spec_u32_from_le_bytes(bytes.subrange(0, 4)),
                rewards_claimed: spec_u32_from_le_bytes(bytes.subrange(4, 8)),
                mint: choose|m: [u8; 32]| m@ == bytes.subrange(8, 40),
            },
        )
    }
}

/// The record that `Init` writes: no points, no claims, paying out in `mint`.
pub open spec fn fresh_record(mint: [u8; 32]) -> RewardAccount {
    RewardAccount { total_points: 0, rewards_claimed: 0, mint }
}

/// Outcome of earning `points` on `r`: the sum, unless it leaves the `u32` range.
pub open spec fn earn_spec(r: RewardAccount, points: u32) -> Option<RewardAccount> {
    if r.total_points + points <= u32::MAX {
        Some(RewardAccount { total_points: (r.total_points + points) as u32, ..r })
    } else {
        None
    }
}

/// Why a redemption is refused.
#[derive(Clone, Copy, Debug, PartialEq, Eq, Structural)]
pub enum RedeemError {
    InsufficientPoints,
    Overflow,
}

/// Outcome of redeeming `required` points on `r`.
pub open spec fn redeem_spec(r: RewardAccount, required: u32) -> Result<RewardAccount, RedeemError> {
    if r.total_points < required {
        Err(RedeemError::InsufficientPoints)
    } else if r.rewards_claimed == u32::MAX {
        Err(RedeemError::Overflow)
    } else {
        Ok(
            RewardAccount {
                total_points: (r.total_points - required) as u32,
                rewards_claimed: (r.rewards_claimed + 1) as u32,
                mint: r.mint,
            },
        )
    }
}


/// Sum of a sequence of point awards, as a mathematical integer.
pub open spec fn sum_points(pts: Seq<u32>) -> int
    decreases pts.len(),
{
    if pts.len() == 0 {
        0
    } else {
        sum_points(pts.drop_last()) + pts.last()
    }
}

/// The record after applying `Earn` for each award in turn, where an award
/// that would overflow is refused and leaves the record as it was.
pub open spec fn earn_all(r: RewardAccount, pts: Seq<u32>) -> RewardAccount
    decreases pts.len(),
{
    if pts.len() == 0 {
        r
    } else {
        let before = earn_all(r, pts.drop_last());
        match earn_spec(before, pts.last()) {
            Some(after) => after,
            None => before,
        }
    }
}

/// Earning a run of awards whose true total stays within `u32` adds exactly
/// that total, with every award accepted; an award is refused exactly when it
/// would carry the total past `u32::MAX`, and then the record is unchanged.
pub proof fn lemma_earn_sequence(r: RewardAccount, pts: Seq<u32>)
    ensures
        r.total_points + sum_points(pts) <= u32::MAX ==> earn_all(r, pts) == (RewardAccount {
            total_points: (r.total_points + sum_points(pts)) as u32,
            ..r
        }),
        forall|p: u32|
            #![trigger earn_spec(earn_all(r, pts), p)]
            (earn_spec(earn_all(r, pts), p) is None <==> earn_all(r, pts).total_points + p
                > u32::MAX),
        earn_all(r, pts).rewards_claimed == r.rewards_claimed,
        earn_all(r, pts).mint == r.mint,
    decreases pts.len(),
{
    if pts.len() > 0 {
        lemma_sum_points_nonneg(pts.drop_last());
        lemma_earn_sequence(r, pts.drop_last());
    }
}

proof fn lemma_sum_points_nonneg(pts: Seq<u32>)
    ensures
        sum_points(pts) >= 0,
    decreases pts.len(),
{
    if pts.len() > 0 {
        lemma_sum_points_nonneg(pts.drop_last());
    }
}

/// A redemption of `required` points succeeds exactly when the record holds at
/// least that many (given the claim counter has room to grow); on success the
/// points drop by `required` and the claim count rises by one, and on failure
/// nothing is returned to write back.
pub proof fn lemma_redeem(r: RewardAccount, required: u32)
    requires
        r.rewards_claimed < u32::MAX,
    ensures
        redeem_spec(r, required) is Ok <==> r.total_points >= required,
        redeem_spec(r, required) matches Ok(after) ==> after.total_points == r.total_points
            - required && after.rewards_claimed == r.rewards_claimed + 1 && after.mint == r.mint,
        redeem_spec(r, required) is Err ==> redeem_spec(r, required) == Err::<
            RewardAccount,
            RedeemError,
        >(RedeemError::InsufficientPoints),
{
}

/// Decoding the encoding of a record gives the record back, for every record
/// whose encoding is not all zero bytes (that one reads as never written).
pub proof fn lemma_record_round_trip(r: RewardAccount)
    requires
        !all_zero(encode_spec(r)),
    ensures
        decode_spec(encode_spec(r)) == Ok::<RewardAccount, DecodeError>(r),
{
    lemma_auto_spec_u32_to_from_le_bytes();
    let b = encode_spec(r);
    assert(b.subrange(0, 4) =~= spec_u32_to_le_bytes(r.total_points));
    assert(b.subrange(4, 8) =~= spec_u32_to_le_bytes(r.rewards_claimed));
    assert(b.subrange(8, 40) =~= r.mint@);
    let chosen = choose|m: [u8; 32]| m@ == b.subrange(8, 40);
    assert(chosen@ == r.mint@);
    assert(chosen =~= r.mint);
}

impl RewardAccount {
    /// A record with no points and no claims.
    pub fn new(mint: [u8; 32]) -> (r: RewardAccount)
        ensures
            r == fresh_record(mint),
    {
        RewardAccount { total_points: 0, rewards_claimed: 0, mint }
    }

    /// The record's bytes, in the persisted layout.
    pub fn pack(&self) -> (out: Vec<u8>)
        ensures
            out@ == encode_spec(*self),
            out@.len() == RECORD_SIZE,
    {
        proof {
            lemma_auto_spec_u32_to_from_le_bytes();
        }
        let mut out = u32_to_le_bytes(self.total_points);
        let mut second = u32_to_le_bytes(self.rewards_claimed);
        out.append(&mut second);
        let mut i: usize = 0;
        while i < 32
            invariant
                0 <= i <= 32,
                out@ == spec_u32_to_le_bytes(self.total_points) + spec_u32_to_le_bytes(
                    self.rewards_claimed,
                ) + self.mint@.subrange(0, i as int),
            decreases 32 - i,
        {
            out.push(self.mint[i]);
            i = i + 1;
            assert(self.mint@.subrange(0, i as int) =~= self.mint@.subrange(0, i - 1).push(
                self.mint@[i - 1],
            ));
        }
        assert(self.mint@.subrange(0, 32) =~= self.mint@);
        out
    }

    /// Writes the record over the first `RECORD_SIZE` bytes of `dst`; refuses,
    /// leaving `dst` as it was, when `dst` is shorter than a record.
    pub fn pack_into(&self, dst: &mut Vec<u8>) -> (ok: bool)
        ensures
            ok == (old(dst)@.len() >= RECORD_SIZE),
            ok ==> final(dst)@ == encode_spec(*self) + old(dst)@.subrange(
                RECORD_SIZE as int,
                old(dst)@.len() as int,
            ),
            !ok ==> final(dst)@ == old(dst)@,
    {
        if dst.len() < RECORD_SIZE {
            return false;
        }
        let bytes = self.pack();
        let mut i: usize = 0;
        while i < RECORD_SIZE
            invariant
                0 <= i <= RECORD_SIZE,
                bytes@ == encode_spec(*self),
                bytes@.len() == RECORD_SIZE,
                dst@.len() == old(dst)@.len(),
                old(dst)@.len() >= RECORD_SIZE,
                forall|j: int| 0 <= j < i ==> dst@[j] == bytes@[j],
                forall|j: int| i <= j < dst@.len() ==> dst@[j] == old(dst)@[j],
            decreases RECORD_SIZE - i,
        {
            dst.set(i, bytes[i]);
            i = i + 1;
        }
        assert(dst@ =~= encode_spec(*self) + old(dst)@.subrange(
            RECORD_SIZE as int,
            old(dst)@.len() as int,
        ));
        true
    }

    /// Reads a record from a buffer that must hold exactly one.
    pub fn unpack(bytes: &[u8]) -> (r: Result<RewardAccount, DecodeError>)
        ensures
            r == decode_spec(bytes@),
    {
        if is_all_zero(bytes) {
            return Err(DecodeError::Uninitialized);
        }
        if bytes.len() != RECORD_SIZE {
            return Err(DecodeError::WrongLength);
        }
        let total_points = u32_from_le_bytes(bytes_between(bytes, 0, 4));
        let rewards_claimed = u32_from_le_bytes(bytes_between(bytes, 4, 8));
        let mut mint: [u8; 32] = [0u8; 32];
        let mut i: usize = 0;
        while i < 32
            invariant
                0 <= i <= 32,
                bytes@.len() == RECORD_SIZE,
                forall|j: int| 0 <= j < i ==> mint@[j] == bytes@[8 + j],
            decreases 32 - i,
        {
            mint[i] = bytes[8 + i];
            i = i + 1;
        }
        assert(mint@ =~= bytes@.subrange(8, 40));
        proof {
            let chosen = choose|m: [u8; 32]| m@ == bytes@.subrange(8, 40);
            assert(chosen@ == mint@);
            assert(chosen =~= mint);
        }
        Ok(RewardAccount { total_points, rewards_claimed, mint })
    }

    /// Adds `points`; refuses, with the record untouched, if the sum would
    /// leave the `u32` range.
    pub fn earn(&self, points: u32) -> (r: Option<RewardAccount>)
        ensures
            r == earn_spec(*self, points),
    {
        match self.total_points.checked_add(points) {
            Some(total_points) => Some(RewardAccount { total_points, ..*self }),
            None => None,
        }
    }

    /// Spends `required` points for one reward.
    pub fn redeem(&self, required: u32) -> (r: Result<RewardAccount, RedeemError>)
        ensures
            r == redeem_spec(*self, required),
    {
        if self.total_points < required {
            return Err(RedeemError::InsufficientPoints);
        }
        match self.rewards_claimed.checked_add(1) {
            Some(rewards_claimed) => Ok(
                RewardAccount {
                    total_points: self.total_points - required,
                    rewards_claimed,
                    mint: self.mint,
                },
            ),
            None => Err(RedeemError::Overflow),
        }
    }
}

/// Whether every byte of `bytes` is zero.
fn is_all_zero(bytes: &[u8]) -> (r: bool)
    ensures
        r == all_zero(bytes@),
{
    let mut i: usize = 0;
    while i < bytes.len()
        invariant
            0 <= i <= bytes@.len(),
            forall|j: int| 0 <= j < i ==> bytes@[j] == 0,
        decreases bytes@.len() - i,
    {
        if bytes[i] != 0 {
            return false;
        }
        i = i + 1;
    }
    true
}

/// A record paying out in a mint whose key is not all zero bytes never
/// encodes as all zero bytes.
pub proof fn lemma_encoding_written(r: RewardAccount)
    requires
        !all_zero(r.mint@),
    ensures
        !all_zero(encode_spec(r)),
{
    lemma_auto_spec_u32_to_from_le_bytes();
    let i = choose|i: int| 0 <= i < r.mint@.len() && r.mint@[i] != 0;
    assert(encode_spec(r)[8 + i] == r.mint@[i]);
}

/// `bytes[lo..hi]`.
pub(crate) fn bytes_between(bytes: &[u8], lo: usize, hi: usize) -> (out: &[u8])
    requires
        lo <= hi <= bytes@.len(),
    ensures
        out@ == bytes@.subrange(lo as int, hi as int),
{
    &bytes[lo..hi]
}

} // verus!
