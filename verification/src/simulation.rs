use vstd::prelude::*;

use crate::address::{address_of, lemma_address_of, Address, ADDRESS_LENGTH};
use crate::collect::{
    collect_results, lemma_collect_all_ok, lemma_collect_err_prefix, lemma_collect_first_err,
    lemma_collect_ok, lemma_collect_step,
};
use crate::error::StakingError;
use crate::wire::{
    le_bytes, le_value, lemma_le_roundtrip, lemma_u64_fits_eight_bytes, read_u64_le, U64_LENGTH,
};

verus! {

/// A BCS-encoded value together with the name of its Move type.
#[derive(Debug)]
pub struct Bcs {
    /// The Move type of the value; empty when the node gave none.
    pub name: String,
    /// The BCS bytes; empty when the node gave none.
    pub value: Vec<u8>,
}

/// One value returned by a command, if the node sent it.
#[derive(Debug)]
pub struct ReturnValue {
    pub value: Option<Bcs>,
}

/// The values one command returned.
#[derive(Debug)]
pub struct CommandOutput {
    pub return_values: Vec<ReturnValue>,
}

/// The parts of a simulation's answer that staking queries read.
#[derive(Debug)]
pub struct SimulationResponse {
    /// Whether the simulated transaction executed successfully.
    pub success: bool,
    /// The outputs of the commands, in order.
    pub command_outputs: Vec<CommandOutput>,
}

/// The first value a command returned, if there is one and it was sent.
pub open spec fn first_value(o: CommandOutput) -> Option<Bcs> {
    if o.return_values@.len() > 0 {
        o.return_values@[0].value
    } else {
        None
    }
}

/// The reward a `calculate_rewards` call returned: its first value must be a
/// `u64` of eight little-endian bytes.
pub open spec fn spec_reward(o: CommandOutput) -> Result<u64, StakingError> {
    match first_value(o) {
        None => Err(StakingError::MissingBcs),
        Some(b) => if b.name@ == "u64"@ && b.value@.len() == U64_LENGTH {
            Ok(le_value(b.value@) as u64)
        } else {
            Err(StakingError::MissingRewards)
        },
    }
}

/// The address a `validator_address_by_pool_id` call returned: its first
/// value must be an `address` of 32 bytes.
pub open spec fn spec_validator(o: CommandOutput) -> Result<Address, StakingError> {
    match first_value(o) {
        None => Err(StakingError::MissingBcs),
        Some(b) => if b.name@ == "address"@ && b.value@.len() == ADDRESS_LENGTH {
            Ok(address_of(b.value@))
        } else {
            Err(StakingError::MissingAddress)
        },
    }
}

/// Whether a simulation answered `n` commands: it must have succeeded and
/// returned one output per command.
pub open spec fn spec_answers(n: nat, r: SimulationResponse) -> Result<(), StakingError> {
    if !r.success {
        Err(StakingError::ExecutionFailed)
    } else if n != r.command_outputs@.len() {
        Err(StakingError::MissingCommandOutputs)
    } else {
        Ok(())
    }
}

/// Each element of `keys` paired with the element of `values` at its position.
pub open spec fn pair_up<K, V>(keys: Seq<K>, values: Seq<V>) -> Seq<(K, V)> {
    Seq::new(keys.len(), |i: int| (keys[i], values[i]))
}

/// The rewards a simulation of the rewards request reports, paired with the
/// ids they were asked for, in order; the first output that fails decides
/// the error.
pub open spec fn spec_decode_rewards(ids: Seq<Address>, r: SimulationResponse) -> Result<
    Seq<(Address, u64)>,
    StakingError,
> {
    match spec_answers(ids.len(), r) {
        Err(e) => Err(e),
        Ok(_) => match collect_results(r.command_outputs@, |o: CommandOutput| spec_reward(o)) {
            Err(e) => Err(e),
            Ok(values) => Ok(pair_up(ids, values)),
        },
    }
}

/// The validator addresses a simulation of the validator request reports,
/// paired with the pool ids they were asked for, in order; the first output
/// that fails decides the error.
pub open spec fn spec_decode_validators(pool_ids: Seq<Address>, r: SimulationResponse) -> Result<
    Seq<(Address, Address)>,
    StakingError,
> {
    match spec_answers(pool_ids.len(), r) {
        Err(e) => Err(e),
        Ok(_) => match collect_results(
            r.command_outputs@,
            |o: CommandOutput| spec_validator(o),
        ) {
            Err(e) => Err(e),
            Ok(values) => Ok(pair_up(pool_ids, values)),
        },
    }
}

/// A `u64` return value gives back the reward it encodes: a first return
/// value named `u64` whose bytes are the eight little-endian bytes of `x`
/// reads as `x`, whatever `x` is.
pub proof fn lemma_reward_roundtrip(o: CommandOutput, b: Bcs, x: u64)
    requires
        o.return_values@.len() > 0,
        o.return_values@[0].value == Some(b),
        b.name@ == "u64"@,
        b.value@ == le_bytes(x as nat, 8),
    ensures
        spec_reward(o) == Ok::<u64, StakingError>(x),
{
    lemma_u64_fits_eight_bytes(x);
    lemma_le_roundtrip(x as nat, 8);
}

/// How a reward output fails: with no first value it is `MissingBcs`; with a
/// first value `b` that is not named `u64`, or is not eight bytes long, it
/// is `MissingRewards`.
pub proof fn lemma_reward_failures(o: CommandOutput, b: Bcs)
    ensures
        (o.return_values@.len() == 0 || o.return_values@[0].value is None) ==> spec_reward(o)
            == Err::<u64, StakingError>(StakingError::MissingBcs),
        (o.return_values@.len() > 0 && o.return_values@[0].value == Some(b) && (b.name@
            != "u64"@ || b.value@.len() != 8)) ==> spec_reward(o) == Err::<u64, StakingError>(
            StakingError::MissingRewards,
        ),
{
}

/// An `address` return value gives back the address it holds: a first
/// return value named `address` whose bytes are those of `a` reads as `a`.
pub proof fn lemma_validator_roundtrip(o: CommandOutput, b: Bcs, a: Address)
    requires
        o.return_values@.len() > 0,
        o.return_values@[0].value == Some(b),
        b.name@ == "address"@,
        b.value@ == a@,
    ensures
        spec_validator(o) == Ok::<Address, StakingError>(a),
{
    lemma_address_of(a);
}

/// How a validator output fails: with no first value it is `MissingBcs`;
/// with a first value `b` that is not named `address`, or is not 32 bytes
/// long, it is `MissingAddress`.
pub proof fn lemma_validator_failures(o: CommandOutput, b: Bcs)
    ensures
        (o.return_values@.len() == 0 || o.return_values@[0].value is None) ==> spec_validator(o)
            == Err::<Address, StakingError>(StakingError::MissingBcs),
        (o.return_values@.len() > 0 && o.return_values@[0].value == Some(b) && (b.name@
            != "address"@ || b.value@.len() != 32)) ==> spec_validator(o) == Err::<
            Address,
            StakingError,
        >(StakingError::MissingAddress),
{
}

/// Decoding the rewards answer: a failed simulation is `ExecutionFailed`; a
/// successful one with a different number of outputs than ids is
/// `MissingCommandOutputs`; otherwise it succeeds exactly when every output
/// holds a reward, then pairing id `k` with the reward of output `k`, and
/// fails with the failure of the first output that holds none.
pub proof fn lemma_decode_rewards_pairs(ids: Seq<Address>, r: SimulationResponse)
    ensures
        !r.success ==> spec_decode_rewards(ids, r) == Err::<Seq<(Address, u64)>, StakingError>(
            StakingError::ExecutionFailed,
        ),
        r.success && ids.len() != r.command_outputs@.len() ==> spec_decode_rewards(ids, r)
            == Err::<Seq<(Address, u64)>, StakingError>(StakingError::MissingCommandOutputs),
        r.success && ids.len() == r.command_outputs@.len() && (forall|k: int|
            0 <= k < ids.len() ==> #[trigger] spec_reward(r.command_outputs@[k]) is Ok)
            ==> spec_decode_rewards(ids, r) is Ok,
        spec_decode_rewards(ids, r) matches Ok(v) ==> {
            &&& v.len() == ids.len()
            &&& forall|k: int|
                0 <= k < ids.len() ==> (#[trigger] v[k]).0 == ids[k] && spec_reward(
                    r.command_outputs@[k],
                ) == Ok::<u64, StakingError>(v[k].1)
        },
        forall|k: int|
            #![trigger spec_reward(r.command_outputs@[k])]
            r.success && ids.len() == r.command_outputs@.len() && 0 <= k < ids.len() && (forall|
                j: int,
            |
                0 <= j < k ==> #[trigger] spec_reward(r.command_outputs@[j]) is Ok) && spec_reward(
                r.command_outputs@[k],
            ) is Err ==> spec_decode_rewards(ids, r) == Err::<Seq<(Address, u64)>, StakingError>(
                spec_reward(r.command_outputs@[k])->Err_0,
            ),
{
    let outs = r.command_outputs@;
    let g = |o: CommandOutput| spec_reward(o);
    if r.success && ids.len() == outs.len() {
        if forall|k: int| 0 <= k < ids.len() ==> #[trigger] spec_reward(outs[k]) is Ok {
            assert forall|k: int| 0 <= k < outs.len() implies #[trigger] g(outs[k]) is Ok by {
                assert(spec_reward(outs[k]) is Ok);
            }
            lemma_collect_all_ok(outs, g);
        }
        if collect_results(outs, g) is Ok {
            lemma_collect_ok(outs, g);
            let vals = collect_results(outs, g)->Ok_0;
            assert forall|k: int| 0 <= k < ids.len() implies g(outs[k]) == Ok::<u64, StakingError>(
                vals[k],
            ) by {}
        }
        assert forall|k: int|
            #![trigger spec_reward(outs[k])]
            0 <= k < ids.len() && (forall|j: int|
                0 <= j < k ==> #[trigger] spec_reward(outs[j]) is Ok) && spec_reward(outs[k]) is Err
            implies spec_decode_rewards(ids, r) == Err::<Seq<(Address, u64)>, StakingError>(
            spec_reward(outs[k])->Err_0,
        ) by {
            assert forall|j: int| 0 <= j < k implies #[trigger] g(outs[j]) is Ok by {
                assert(spec_reward(outs[j]) is Ok);
            }
            lemma_collect_first_err(outs, k, g);
        }
    }
}

/// Decoding the validator answer: a failed simulation is `ExecutionFailed`;
/// a successful one with a different number of outputs than pools is
/// `MissingCommandOutputs`; otherwise it succeeds exactly when every output
/// holds an address, then pairing pool `k` with the address of output `k`,
/// and fails with the failure of the first output that holds none.
pub proof fn lemma_decode_validators_pairs(pool_ids: Seq<Address>, r: SimulationResponse)
    ensures
        !r.success ==> spec_decode_validators(pool_ids, r) == Err::<
            Seq<(Address, Address)>,
            StakingError,
        >(StakingError::ExecutionFailed),
        r.success && pool_ids.len() != r.command_outputs@.len() ==> spec_decode_validators(
            pool_ids,
            r,
        ) == Err::<Seq<(Address, Address)>, StakingError>(StakingError::MissingCommandOutputs),
        r.success && pool_ids.len() == r.command_outputs@.len() && (forall|k: int|
            0 <= k < pool_ids.len() ==> #[trigger] spec_validator(r.command_outputs@[k]) is Ok)
            ==> spec_decode_validators(pool_ids, r) is Ok,
        spec_decode_validators(pool_ids, r) matches Ok(v) ==> {
            &&& v.len() == pool_ids.len()
            &&& forall|k: int|
                0 <= k < pool_ids.len() ==> (#[trigger] v[k]).0 == pool_ids[k] && spec_validator(
                    r.command_outputs@[k],
                ) == Ok::<Address, StakingError>(v[k].1)
        },
        forall|k: int|
            #![trigger spec_validator(r.command_outputs@[k])]
            r.success && pool_ids.len() == r.command_outputs@.len() && 0 <= k < pool_ids.len() && (
            forall|j: int|
                0 <= j < k ==> #[trigger] spec_validator(r.command_outputs@[j]) is Ok)
                && spec_validator(r.command_outputs@[k]) is Err ==> spec_decode_validators(
                pool_ids,
                r,
            ) == Err::<Seq<(Address, Address)>, StakingError>(
                spec_validator(r.command_outputs@[k])->Err_0,
            ),
{
    let outs = r.command_outputs@;
    let g = |o: CommandOutput| spec_validator(o);
    if r.success && pool_ids.len() == outs.len() {
        if forall|k: int| 0 <= k < pool_ids.len() ==> #[trigger] spec_validator(outs[k]) is Ok {
            assert forall|k: int| 0 <= k < outs.len() implies #[trigger] g(outs[k]) is Ok by {
                assert(spec_validator(outs[k]) is Ok);
            }
            lemma_collect_all_ok(outs, g);
        }
        if collect_results(outs, g) is Ok {
            lemma_collect_ok(outs, g);
            let vals = collect_results(outs, g)->Ok_0;
            assert forall|k: int| 0 <= k < pool_ids.len() implies g(outs[k]) == Ok::<
                Address,
                StakingError,
            >(vals[k]) by {}
        }
        assert forall|k: int|
            #![trigger spec_validator(outs[k])]
            0 <= k < pool_ids.len() && (forall|j: int|
                0 <= j < k ==> #[trigger] spec_validator(outs[j]) is Ok) && spec_validator(
                outs[k],
            ) is Err implies spec_decode_validators(pool_ids, r) == Err::<
            Seq<(Address, Address)>,
            StakingError,
        >(spec_validator(outs[k])->Err_0) by {
            assert forall|j: int| 0 <= j < k implies #[trigger] g(outs[j]) is Ok by {
                assert(spec_validator(outs[j]) is Ok);
            }
            lemma_collect_first_err(outs, k, g);
        }
    }
}

/// The first value a command returned, if any.
fn first_bcs(o: &CommandOutput) -> (res: Option<&Bcs>)
    ensures
        match first_value(*o) {
            None => res is None,
            Some(b) => res matches Some(x) && *x == b,
        },
{
    if o.return_values.len() == 0 {
        None
    } else {
        match &o.return_values[0].value {
            None => None,
            Some(b) => Some(b),
        }
    }
}

/// Reads the reward out of one command output.
pub fn reward_from_output(o: &CommandOutput) -> (res: Result<u64, StakingError>)
    ensures
        res == spec_reward(*o),
{
    let u64_name = "u64".to_owned();
    match first_bcs(o) {
        None => Err(StakingError::MissingBcs),
        Some(b) => {
            if b.name == u64_name && b.value.len() == U64_LENGTH {
                assert(b.value@.subrange(0, 8) =~= b.value@);
                Ok(read_u64_le(b.value.as_slice(), 0))
            } else {
                Err(StakingError::MissingRewards)
            }
        },
    }
}

/// Reads the validator address out of one command output.
pub fn validator_from_output(o: &CommandOutput) -> (res: Result<Address, StakingError>)
    ensures
        res == spec_validator(*o),
{
    let address_name = "address".to_owned();
    match first_bcs(o) {
        None => Err(StakingError::MissingBcs),
        Some(b) => {
            if b.name == address_name && b.value.len() == ADDRESS_LENGTH {
                let a = Address::read_at(b.value.as_slice(), 0);
                proof {
                    assert(b.value@.subrange(0, 32) =~= b.value@);
                    lemma_address_of(a);
                }
                Ok(a)
            } else {
                Err(StakingError::MissingAddress)
            }
        },
    }
}

/// Checks that a simulation succeeded and answered `n` commands.
fn check_answers(n: usize, r: &SimulationResponse) -> (res: Result<(), StakingError>)
    ensures
        res == spec_answers(n as nat, *r),
{
    if !r.success {
        Err(StakingError::ExecutionFailed)
    } else if n != r.command_outputs.len() {
        Err(StakingError::MissingCommandOutputs)
    } else {
        Ok(())
    }
}

/// Reads the rewards out of a simulation of the rewards request for
/// `staked_ids`, pairing each with its id.
pub fn decode_rewards(staked_ids: &[Address], response: &SimulationResponse) -> (res: Result<
    Vec<(Address, u64)>,
    StakingError,
>)
    ensures
        match spec_decode_rewards(staked_ids@, *response) {
            Ok(s) => res matches Ok(v) && v@ == s,
            Err(e) => res == Err::<Vec<(Address, u64)>, StakingError>(e),
        },
{
    match check_answers(staked_ids.len(), response) {
        Err(e) => return Err(e),
        Ok(_) => {},
    }
    let ghost outs = response.command_outputs@;
    let ghost f = |o: CommandOutput| spec_reward(o);
    let mut out: Vec<(Address, u64)> = Vec::new();
    let ghost mut values: Seq<u64> = Seq::empty();
    let n = staked_ids.len();
    let mut i: usize = 0;
    while i < n
        invariant
            n == staked_ids@.len(),
            n == outs.len(),
            outs == response.command_outputs@,
            response.success,
            0 <= i <= n,
            f == (|o: CommandOutput| spec_reward(o)),
            collect_results(outs.take(i as int), f) == Ok::<Seq<u64>, StakingError>(values),
            values.len() == i,
            out@ =~= pair_up(staked_ids@.take(i as int), values),
        decreases n - i,
    {
        proof {
            lemma_collect_step(outs, i as int, f);
        }
        match reward_from_output(&response.command_outputs[i]) {
            Ok(reward) => {
                out.push((staked_ids[i], reward));
                proof {
                    values = values.push(reward);
                }
            },
            Err(e) => {
                proof {
                    lemma_collect_err_prefix(outs, i + 1, f);
                }
                return Err(e);
            },
        }
        i = i + 1;
    }
    proof {
        assert(outs.take(n as int) =~= outs);
        assert(staked_ids@.take(n as int) =~= staked_ids@);
    }
    Ok(out)
}

/// Reads the validator addresses out of a simulation of the validator
/// request for `pool_ids`, pairing each with its pool id.
pub fn decode_validators(pool_ids: &[Address], response: &SimulationResponse) -> (res: Result<
    Vec<(Address, Address)>,
    StakingError,
>)
    ensures
        match spec_decode_validators(pool_ids@, *response) {
            Ok(s) => res matches Ok(v) && v@ == s,
            Err(e) => res == Err::<Vec<(Address, Address)>, StakingError>(e),
        },
{
    match check_answers(pool_ids.len(), response) {
        Err(e) => return Err(e),
        Ok(_) => {},
    }
    let ghost outs = response.command_outputs@;
    let ghost f = |o: CommandOutput| spec_validator(o);
    let mut out: Vec<(Address, Address)> = Vec::new();
    let ghost mut values: Seq<Address> = Seq::empty();
    let n = pool_ids.len();
    let mut i: usize = 0;
    while i < n
        invariant
            n == pool_ids@.len(),
            n == outs.len(),
            outs == response.command_outputs@,
            response.success,
            0 <= i <= n,
            f == (|o: CommandOutput| spec_validator(o)),
            collect_results(outs.take(i as int), f) == Ok::<Seq<Address>, StakingError>(values),
            values.len() == i,
            out@ =~= pair_up(pool_ids@.take(i as int), values),
        decreases n - i,
    {
        proof {
            lemma_collect_step(outs, i as int, f);
        }
        match validator_from_output(&response.command_outputs[i]) {
            Ok(address) => {
                out.push((pool_ids[i], address));
                proof {
                    values = values.push(address);
                }
            },
            Err(e) => {
                proof {
                    lemma_collect_err_prefix(outs, i + 1, f);
                }
                return Err(e);
            },
        }
        i = i + 1;
    }
    proof {
        assert(outs.take(n as int) =~= outs);
        assert(pool_ids@.take(n as int) =~= pool_ids@);
    }
    Ok(out)
}

} // verus!
