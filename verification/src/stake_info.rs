use vstd::prelude::*;

use crate::address::Address;
use crate::error::StakingError;
use crate::address::address_text;
use crate::ptb::{
    lemma_rewards_transaction_asks_each_id, lemma_validator_transaction_asks_each_pool, InputView,
    calculate_rewards_request, rewards_transaction, simulation_of, validator_addresses_request,
    validator_transaction, SimulationRequest, SimulationRequestView,
};
use crate::collect::{collect_results, lemma_collect_ok};
use crate::simulation::{
    decode_rewards, decode_validators, spec_decode_rewards, spec_decode_validators, spec_reward,
    spec_validator, CommandOutput, SimulationResponse,
};
use crate::stake::{
    assemble_delegated_stakes, byte_views, decode_staked_suis, delegated_stake_of, spec_assemble,
    spec_staked_sui, spec_staked_suis, DelegatedStake, StakedSui,
};

verus! {

/// Where the work of turning staked objects into delegated stakes stands,
/// between two simulations.
#[derive(Debug)]
pub enum StakeInfoState {
    /// The objects are decoded; the rewards simulation is under way.
    AwaitingRewards { staked: Vec<StakedSui> },
    /// The rewards are known; the validator-address simulation is under way.
    AwaitingValidators { staked: Vec<StakedSui>, rewards: Vec<(Address, u64)> },
}

/// The mathematical value of a [`StakeInfoState`].
pub enum StakeInfoStateView {
    AwaitingRewards(Seq<StakedSui>),
    AwaitingValidators(Seq<StakedSui>, Seq<(Address, u64)>),
}

impl View for StakeInfoState {
    type V = StakeInfoStateView;

    open spec fn view(&self) -> StakeInfoStateView {
        match self {
            StakeInfoState::AwaitingRewards { staked } => StakeInfoStateView::AwaitingRewards(
                staked@,
            ),
            StakeInfoState::AwaitingValidators {
                staked,
                rewards,
            } => StakeInfoStateView::AwaitingValidators(staked@, rewards@),
        }
    }
}

/// What comes next: a simulation to run, after which the state is advanced
/// with its answer, or the finished list of delegated stakes.
#[derive(Debug)]
pub enum StakeInfoStep {
    Simulate { state: StakeInfoState, request: SimulationRequest },
    Finished { stakes: Vec<DelegatedStake> },
}

/// The mathematical value of a [`StakeInfoStep`].
pub enum StakeInfoStepView {
    Simulate(StakeInfoStateView, SimulationRequestView),
    Finished(Seq<DelegatedStake>),
}

impl View for StakeInfoStep {
    type V = StakeInfoStepView;

    open spec fn view(&self) -> StakeInfoStepView {
        match self {
            StakeInfoStep::Simulate { state, request } => StakeInfoStepView::Simulate(
                state@,
                request@,
            ),
            StakeInfoStep::Finished { stakes } => StakeInfoStepView::Finished(stakes@),
        }
    }
}

/// The view of a step or of the error that stopped it.
pub open spec fn step_result(r: Result<StakeInfoStep, StakingError>) -> Result<
    StakeInfoStepView,
    StakingError,
> {
    match r {
        Ok(step) => Ok(step@),
        Err(e) => Err(e),
    }
}

/// The ids of staked objects, in order.
pub open spec fn ids_of(staked: Seq<StakedSui>) -> Seq<Address> {
    staked.map_values(|s: StakedSui| s.id)
}

/// The staking pools of staked objects, in order.
pub open spec fn pool_ids_of(staked: Seq<StakedSui>) -> Seq<Address> {
    staked.map_values(|s: StakedSui| s.pool_id)
}

/// The first step for objects with the given contents: decode every object,
/// then ask for the rewards of all of them in one simulation.
pub open spec fn spec_start(contents: Seq<Seq<u8>>) -> Result<StakeInfoStepView, StakingError> {
    match spec_staked_suis(contents) {
        Err(e) => Err(e),
        Ok(staked) => Ok(
            StakeInfoStepView::Simulate(
                StakeInfoStateView::AwaitingRewards(staked),
                simulation_of(rewards_transaction(ids_of(staked))),
            ),
        ),
    }
}

/// The step after a simulation answered: rewards lead to the validator
/// simulation, validator addresses to the finished delegated stakes.
pub open spec fn spec_advance(state: StakeInfoStateView, r: SimulationResponse) -> Result<
    StakeInfoStepView,
    StakingError,
> {
    match state {
        StakeInfoStateView::AwaitingRewards(staked) => match spec_decode_rewards(
            ids_of(staked),
            r,
        ) {
            Err(e) => Err(e),
            Ok(rewards) => Ok(
                StakeInfoStepView::Simulate(
                    StakeInfoStateView::AwaitingValidators(staked, rewards),
                    simulation_of(validator_transaction(pool_ids_of(staked))),
                ),
            ),
        },
        StakeInfoStateView::AwaitingValidators(staked, rewards) => match spec_decode_validators(
            pool_ids_of(staked),
            r,
        ) {
            Err(e) => Err(e),
            Ok(validators) => Ok(
                StakeInfoStepView::Finished(spec_assemble(staked, rewards, validators)),
            ),
        },
    }
}

/// The exchange takes exactly two simulations: the answer to the rewards
/// simulation can only lead to the validator simulation, and the answer to
/// that one can only finish the work.
pub proof fn lemma_stake_info_two_simulations(state: StakeInfoStateView, r: SimulationResponse)
    ensures
        state is AwaitingRewards ==> (spec_advance(state, r) matches Ok(step) ==> step matches StakeInfoStepView::Simulate(
            StakeInfoStateView::AwaitingValidators(_, _),
            _,
        )),
        state is AwaitingValidators ==> (spec_advance(state, r) matches Ok(step)
            ==> step is Finished),
{
}

/// Object `i` decodes, outputs `i` of both simulations decode, and `stake`
/// is the delegated stake they make together.
pub open spec fn stake_from_answers(
    contents: Seq<Seq<u8>>,
    rewards_answer: SimulationResponse,
    validators_answer: SimulationResponse,
    i: int,
    stake: DelegatedStake,
) -> bool {
    &&& spec_staked_sui(contents[i]) is Ok
    &&& spec_reward(rewards_answer.command_outputs@[i]) is Ok
    &&& spec_validator(validators_answer.command_outputs@[i]) is Ok
    &&& stake == delegated_stake_of(
        spec_staked_sui(contents[i])->Ok_0,
        spec_reward(rewards_answer.command_outputs@[i])->Ok_0,
        spec_validator(validators_answer.command_outputs@[i])->Ok_0,
    )
}

/// When the exchange succeeds, it yields one delegated stake per object, in
/// the objects' order: the stake at position `i` carries the id, pool,
/// activation epoch and principal decoded from object `i`, the reward of
/// output `i` of the rewards simulation and the validator address of output
/// `i` of the validator simulation.
pub proof fn lemma_stake_info_one_per_object(
    contents: Seq<Seq<u8>>,
    rewards_answer: SimulationResponse,
    validators_answer: SimulationResponse,
)
    ensures
        spec_start(contents) matches Ok(StakeInfoStepView::Simulate(s1, _)) ==> (spec_advance(
            s1,
            rewards_answer,
        ) matches Ok(StakeInfoStepView::Simulate(s2, _)) ==> (spec_advance(
            s2,
            validators_answer,
        ) matches Ok(StakeInfoStepView::Finished(stakes)) ==> {
            &&& stakes.len() == contents.len()
            &&& forall|i: int|
                0 <= i < contents.len() ==> stake_from_answers(
                    contents,
                    rewards_answer,
                    validators_answer,
                    i,
                    #[trigger] stakes[i],
                )
        })),
{
    let f = |b: Seq<u8>| spec_staked_sui(b);
    let g = |o: CommandOutput| spec_reward(o);
    let h = |o: CommandOutput| spec_validator(o);
    if spec_start(contents) is Ok {
        lemma_collect_ok(contents, f);
        let staked = spec_staked_suis(contents)->Ok_0;
        let s1 = StakeInfoStateView::AwaitingRewards(staked);
        assert(spec_start(contents)->Ok_0->Simulate_0 == s1);
        if spec_advance(s1, rewards_answer) is Ok {
            let outs1 = rewards_answer.command_outputs@;
            lemma_collect_ok(outs1, g);
            assert(ids_of(staked).len() == staked.len());
            let rewards = spec_decode_rewards(ids_of(staked), rewards_answer)->Ok_0;
            let s2 = StakeInfoStateView::AwaitingValidators(staked, rewards);
            assert(spec_advance(s1, rewards_answer)->Ok_0->Simulate_0 == s2);
            if spec_advance(s2, validators_answer) is Ok {
                let outs2 = validators_answer.command_outputs@;
                lemma_collect_ok(outs2, h);
                assert(pool_ids_of(staked).len() == staked.len());
                let validators = spec_decode_validators(pool_ids_of(staked), validators_answer)->Ok_0;
                let stakes = spec_assemble(staked, rewards, validators);
                assert(stakes.len() == contents.len());
                assert(spec_advance(s2, validators_answer)->Ok_0->Finished_0 == stakes);
                let vals1 = collect_results(outs1, g)->Ok_0;
                let vals2 = collect_results(outs2, h)->Ok_0;
                assert forall|i: int| 0 <= i < contents.len() implies stake_from_answers(
                    contents,
                    rewards_answer,
                    validators_answer,
                    i,
                    #[trigger] stakes[i],
                ) by {
                    assert(f(contents[i]) == Ok::<StakedSui, StakingError>(staked[i]));
                    assert(g(outs1[i]) == Ok::<u64, StakingError>(vals1[i]));
                    assert(h(outs2[i]) == Ok::<Address, StakingError>(vals2[i]));
                }
            }
        }
    }
}

/// The simulations ask about the objects themselves: the rewards request
/// that the first step sends names, as input `k + 1`, the id decoded from
/// object `k` (never its pool), and the validator request that follows it
/// passes, as input `k + 1`, the pool id decoded from object `k`.
pub proof fn lemma_requests_name_the_objects(
    contents: Seq<Seq<u8>>,
    rewards_answer: SimulationResponse,
)
    ensures
        spec_start(contents) matches Ok(StakeInfoStepView::Simulate(s1, rewards_request)) ==> {
            &&& rewards_request.transaction.inputs.len() == contents.len() + 1
            &&& forall|k: int|
                #![trigger spec_staked_sui(contents[k])]
                0 <= k < contents.len() ==> rewards_request.transaction.inputs[k + 1]
                    == InputView::ObjectId(address_text(spec_staked_sui(contents[k])->Ok_0.id@))
            &&& spec_advance(s1, rewards_answer) matches Ok(
                StakeInfoStepView::Simulate(_, validators_request),
            ) ==> {
                &&& validators_request.transaction.inputs.len() == contents.len() + 1
                &&& forall|k: int|
                    #![trigger spec_staked_sui(contents[k])]
                    0 <= k < contents.len() ==> validators_request.transaction.inputs[k + 1]
                        == InputView::Pure(spec_staked_sui(contents[k])->Ok_0.pool_id@)
            }
        },
{
    let f = |b: Seq<u8>| spec_staked_sui(b);
    if spec_start(contents) is Ok {
        lemma_collect_ok(contents, f);
        let staked = spec_staked_suis(contents)->Ok_0;
        let ids = ids_of(staked);
        let pools = pool_ids_of(staked);
        lemma_rewards_transaction_asks_each_id(ids);
        lemma_validator_transaction_asks_each_pool(pools);
        assert forall|k: int| 0 <= k < contents.len() implies #[trigger] spec_staked_sui(
            contents[k],
        ) == Ok::<StakedSui, StakingError>(staked[k]) by {
            assert(f(contents[k]) == Ok::<StakedSui, StakingError>(staked[k]));
        }
        assert forall|k: int| 0 <= k < contents.len() implies ids[k] == staked[k].id
            && pools[k] == staked[k].pool_id by {}
    }
}

/// Looking up a single object yields exactly one delegated stake when the
/// exchange succeeds, so taking the first one never fails.
pub proof fn lemma_single_object_single_stake(
    contents: Seq<u8>,
    rewards_answer: SimulationResponse,
    validators_answer: SimulationResponse,
)
    ensures
        spec_start(seq![contents]) matches Ok(StakeInfoStepView::Simulate(s1, _)) ==> (
        spec_advance(s1, rewards_answer) matches Ok(StakeInfoStepView::Simulate(s2, _)) ==> (
        spec_advance(s2, validators_answer) matches Ok(StakeInfoStepView::Finished(stakes))
            ==> stakes.len() == 1)),
{
    lemma_stake_info_one_per_object(seq![contents], rewards_answer, validators_answer);
}

fn staked_ids(staked: &Vec<StakedSui>) -> (res: Vec<Address>)
    ensures
        res@ == ids_of(staked@),
{
    let mut out: Vec<Address> = Vec::new();
    let mut i: usize = 0;
    while i < staked.len()
        invariant
            0 <= i <= staked.len(),
            out@ =~= ids_of(staked@).take(i as int),
        decreases staked.len() - i,
    {
        out.push(staked[i].id);
        i = i + 1;
    }
    out
}

fn staked_pool_ids(staked: &Vec<StakedSui>) -> (res: Vec<Address>)
    ensures
        res@ == pool_ids_of(staked@),
{
    let mut out: Vec<Address> = Vec::new();
    let mut i: usize = 0;
    while i < staked.len()
        invariant
            0 <= i <= staked.len(),
            out@ =~= pool_ids_of(staked@).take(i as int),
        decreases staked.len() - i,
    {
        out.push(staked[i].pool_id);
        i = i + 1;
    }
    out
}

/// Starts turning objects, given by the BCS bytes of their contents, into
/// delegated stakes.
pub fn start_stake_info(contents: &[Vec<u8>]) -> (res: Result<StakeInfoStep, StakingError>)
    ensures
        step_result(res) == spec_start(byte_views(contents@)),
{
    let staked = match decode_staked_suis(contents) {
        Ok(staked) => staked,
        Err(e) => return Err(e),
    };
    let ids = staked_ids(&staked);
    let request = calculate_rewards_request(ids.as_slice());
    Ok(StakeInfoStep::Simulate { state: StakeInfoState::AwaitingRewards { staked }, request })
}

/// Advances with the answer to the simulation that the last step asked for.
pub fn advance_stake_info(state: StakeInfoState, response: &SimulationResponse) -> (res: Result<
    StakeInfoStep,
    StakingError,
>)
    ensures
        step_result(res) == spec_advance(state@, *response),
{
    match state {
        StakeInfoState::AwaitingRewards { staked } => {
            let ids = staked_ids(&staked);
            let rewards = match decode_rewards(ids.as_slice(), response) {
                Ok(rewards) => rewards,
                Err(e) => return Err(e),
            };
            let pool_ids = staked_pool_ids(&staked);
            let request = validator_addresses_request(pool_ids.as_slice());
            Ok(
                StakeInfoStep::Simulate {
                    state: StakeInfoState::AwaitingValidators { staked, rewards },
                    request,
                },
            )
        },
        StakeInfoState::AwaitingValidators { staked, rewards } => {
            let pool_ids = staked_pool_ids(&staked);
            let validators = match decode_validators(pool_ids.as_slice(), response) {
                Ok(validators) => validators,
                Err(e) => return Err(e),
            };
            let stakes = assemble_delegated_stakes(staked, rewards, validators);
            Ok(StakeInfoStep::Finished { stakes })
        },
    }
}

} // verus!
