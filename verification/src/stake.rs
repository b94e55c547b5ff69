use vstd::prelude::*;

use crate::address::{address_of, lemma_address_of, Address, ADDRESS_LENGTH};
use crate::collect::{collect_results, lemma_collect_err_prefix, lemma_collect_step};
use crate::error::StakingError;
use crate::wire::{
    le_bytes, le_value, lemma_le_roundtrip, lemma_u64_fits_eight_bytes, read_u64_le, U64_LENGTH,
};

verus! {

/// Number of bytes in the BCS encoding of a `StakedSui` object: two 32-byte
/// ids followed by two little-endian `u64`s.
pub const STAKED_SUI_LENGTH: usize = 80;

/// The fields of an on-chain `StakedSui` object that staking queries read.
#[derive(Clone, Copy, Debug, PartialEq, Eq)]
pub struct StakedSui {
    /// The id of the `StakedSui` object.
    pub id: Address,
    /// The id of the staking pool the stake is with.
    pub pool_id: Address,
    /// The epoch at which the stake becomes active.
    pub stake_activation_epoch: u64,
    /// The staked HANEUL tokens.
    pub principal: u64,
}

/// A stake delegated to a validator, with the rewards it has accrued.
#[derive(Clone, Copy, Debug, PartialEq, Eq)]
pub struct DelegatedStake {
    /// ObjectId of this StakedSui delegation.
    pub staked_haneul_id: Address,
    /// Validator's Address.
    pub validator_address: Address,
    /// Staking pool object id.
    pub staking_pool: Address,
    /// The epoch at which the stake becomes active.
    pub activation_epoch: u64,
    /// The staked HANEUL tokens.
    pub principal: u64,
    /// The accrued rewards.
    pub rewards: u64,
}

/// What the BCS bytes of an object's contents decode to as a `StakedSui`:
/// too few bytes end the input early, too many are left over, and exactly
/// eighty are the id, the pool id, the activation epoch and the principal.
pub open spec fn spec_staked_sui(bytes: Seq<u8>) -> Result<StakedSui, StakingError> {
    if bytes.len() < STAKED_SUI_LENGTH {
        Err(StakingError::UnexpectedEndOfInput)
    } else if bytes.len() > STAKED_SUI_LENGTH {
        Err(StakingError::RemainingInput)
    } else {
        Ok(
            StakedSui {
                id: address_of(bytes.subrange(0, 32)),
                pool_id: address_of(bytes.subrange(32, 64)),
                stake_activation_epoch: le_value(bytes.subrange(64, 72)) as u64,
                principal: le_value(bytes.subrange(72, 80)) as u64,
            },
        )
    }
}

/// Decoding gives back every field of a record exactly: the BCS bytes of an
/// id, a pool id, an activation epoch and a principal (the two ids as they
/// are, the two numbers as eight little-endian bytes each) decode to that
/// id, pool id, epoch and principal, whatever their values.
pub proof fn lemma_staked_sui_roundtrip(id: Address, pool_id: Address, epoch: u64, principal: u64)
    ensures
        spec_staked_sui(id@ + pool_id@ + le_bytes(epoch as nat, 8) + le_bytes(principal as nat, 8))
            == Ok::<StakedSui, StakingError>(
            StakedSui { id, pool_id, stake_activation_epoch: epoch, principal },
        ),
{
    let e = le_bytes(epoch as nat, 8);
    let p = le_bytes(principal as nat, 8);
    lemma_u64_fits_eight_bytes(epoch);
    lemma_u64_fits_eight_bytes(principal);
    lemma_le_roundtrip(epoch as nat, 8);
    lemma_le_roundtrip(principal as nat, 8);
    let b = id@ + pool_id@ + e + p;
    assert(b.len() == 80);
    assert(b.subrange(0, 32) =~= id@);
    assert(b.subrange(32, 64) =~= pool_id@);
    assert(b.subrange(64, 72) =~= e);
    assert(b.subrange(72, 80) =~= p);
    lemma_address_of(id);
    lemma_address_of(pool_id);
}

/// The decoding of each object's contents, failing at the first object that
/// does not decode.
pub open spec fn spec_staked_suis(contents: Seq<Seq<u8>>) -> Result<Seq<StakedSui>, StakingError> {
    collect_results(contents, |b: Seq<u8>| spec_staked_sui(b))
}

/// The views of a list of byte vectors.
pub open spec fn byte_views(v: Seq<Vec<u8>>) -> Seq<Seq<u8>> {
    v.map_values(|b: Vec<u8>| b@)
}

/// The delegated stake that a staked object, its reward and its validator make.
pub open spec fn delegated_stake_of(
    staked: StakedSui,
    rewards: u64,
    validator_address: Address,
) -> DelegatedStake {
    DelegatedStake {
        staked_haneul_id: staked.id,
        validator_address,
        staking_pool: staked.pool_id,
        activation_epoch: staked.stake_activation_epoch,
        principal: staked.principal,
        rewards,
    }
}

/// The smallest of three lengths.
pub open spec fn min3(a: nat, b: nat, c: nat) -> nat {
    if a <= b && a <= c {
        a
    } else if b <= c {
        b
    } else {
        c
    }
}

/// Delegated stakes from staked objects, `(id, reward)` pairs and
/// `(pool id, validator)` pairs taken position by position, as far as the
/// shortest of the three goes.
pub open spec fn spec_assemble(
    staked: Seq<StakedSui>,
    rewards: Seq<(Address, u64)>,
    validators: Seq<(Address, Address)>,
) -> Seq<DelegatedStake> {
    Seq::new(
        min3(staked.len(), rewards.len(), validators.len()),
        |i: int| delegated_stake_of(staked[i], rewards[i].1, validators[i].1),
    )
}

/// Assembling takes each field of a delegated stake from its own source at
/// the same position: the stake's id, pool, activation epoch and principal
/// from the staked object, its rewards from the reward pair and its
/// validator from the validator pair; the result is as long as the shortest
/// of the three lists.
pub proof fn lemma_assemble_fields(
    staked: Seq<StakedSui>,
    rewards: Seq<(Address, u64)>,
    validators: Seq<(Address, Address)>,
)
    ensures
        spec_assemble(staked, rewards, validators).len() <= staked.len(),
        spec_assemble(staked, rewards, validators).len() <= rewards.len(),
        spec_assemble(staked, rewards, validators).len() <= validators.len(),
        spec_assemble(staked, rewards, validators).len() == staked.len()
            || spec_assemble(staked, rewards, validators).len() == rewards.len()
            || spec_assemble(staked, rewards, validators).len() == validators.len(),
        forall|i: int|
            0 <= i < spec_assemble(staked, rewards, validators).len() ==> {
                let d = #[trigger] spec_assemble(staked, rewards, validators)[i];
                &&& d.staked_haneul_id == staked[i].id
                &&& d.staking_pool == staked[i].pool_id
                &&& d.activation_epoch == staked[i].stake_activation_epoch
                &&& d.principal == staked[i].principal
                &&& d.rewards == rewards[i].1
                &&& d.validator_address == validators[i].1
            },
{
}

impl StakedSui {
    /// Decodes the BCS contents of a `StakedSui` object.
    pub fn from_bcs(bytes: &[u8]) -> (res: Result<StakedSui, StakingError>)
        ensures
            res == spec_staked_sui(bytes@),
    {
        if bytes.len() < STAKED_SUI_LENGTH {
            return Err(StakingError::UnexpectedEndOfInput);
        }
        if bytes.len() > STAKED_SUI_LENGTH {
            return Err(StakingError::RemainingInput);
        }
        let id = Address::read_at(bytes, 0);
        let pool_id = Address::read_at(bytes, ADDRESS_LENGTH);
        let stake_activation_epoch = read_u64_le(bytes, 2 * ADDRESS_LENGTH);
        let principal = read_u64_le(bytes, 2 * ADDRESS_LENGTH + U64_LENGTH);
        proof {
            lemma_address_of(id);
            lemma_address_of(pool_id);
        }
        Ok(StakedSui { id, pool_id, stake_activation_epoch, principal })
    }
}

/// Decodes the contents of each object in order, stopping at the first one
/// that does not decode.
pub fn decode_staked_suis(contents: &[Vec<u8>]) -> (res: Result<Vec<StakedSui>, StakingError>)
    ensures
        match spec_staked_suis(byte_views(contents@)) {
            Ok(s) => res matches Ok(v) && v@ == s,
            Err(e) => res == Err::<Vec<StakedSui>, StakingError>(e),
        },
{
    let ghost views = byte_views(contents@);
    let ghost f = |b: Seq<u8>| spec_staked_sui(b);
    let mut out: Vec<StakedSui> = Vec::new();
    let mut i: usize = 0;
    while i < contents.len()
        invariant
            0 <= i <= contents.len(),
            views == byte_views(contents@),
            views.len() == contents@.len(),
            f == (|b: Seq<u8>| spec_staked_sui(b)),
            collect_results(views.take(i as int), f) == Ok::<Seq<StakedSui>, StakingError>(out@),
        decreases contents.len() - i,
    {
        proof {
            lemma_collect_step(views, i as int, f);
        }
        assert(views[i as int] == contents@[i as int]@);
        match StakedSui::from_bcs(contents[i].as_slice()) {
            Ok(s) => {
                out.push(s);
            },
            Err(e) => {
                proof {
                    lemma_collect_err_prefix(views, i + 1, f);
                }
                return Err(e);
            },
        }
        i = i + 1;
    }
    assert(views.take(contents.len() as int) =~= views);
    Ok(out)
}

/// Delegated stakes from staked objects and the rewards and validator
/// addresses found for them, paired up by position; where the three lists
/// differ in length the extra elements are dropped.
pub fn assemble_delegated_stakes(
    staked: Vec<StakedSui>,
    rewards: Vec<(Address, u64)>,
    validators: Vec<(Address, Address)>,
) -> (res: Vec<DelegatedStake>)
    ensures
        res@ == spec_assemble(staked@, rewards@, validators@),
{
    let n = if staked.len() <= rewards.len() && staked.len() <= validators.len() {
        staked.len()
    } else if rewards.len() <= validators.len() {
        rewards.len()
    } else {
        validators.len()
    };
    let mut out: Vec<DelegatedStake> = Vec::new();
    let mut i: usize = 0;
    while i < n
        invariant
            n == min3(staked@.len(), rewards@.len(), validators@.len()),
            0 <= i <= n,
            out@ =~= spec_assemble(staked@, rewards@, validators@).take(i as int),
        decreases n - i,
    {
        let s = staked[i];
        let r = rewards[i];
        let v = validators[i];
        out.push(
            DelegatedStake {
                staked_haneul_id: s.id,
                validator_address: v.1,
                staking_pool: s.pool_id,
                activation_epoch: s.stake_activation_epoch,
                principal: s.principal,
                rewards: r.1,
            },
        );
        i = i + 1;
    }
    out
}

} // verus!
