use haneul_staking::address::Address;
use haneul_staking::error::StakingError;
use haneul_staking::listing::StakePager;
use haneul_staking::simulation::{Bcs, CommandOutput, ReturnValue, SimulationResponse};
use haneul_staking::stake::{assemble_delegated_stakes, DelegatedStake, StakedSui};
use haneul_staking::stake_info::{advance_stake_info, start_stake_info, StakeInfoState, StakeInfoStep};

fn bytes(seed: u8) -> [u8; 32] {
    let mut b = [0u8; 32];
    for (i, x) in b.iter_mut().enumerate() {
        *x = seed.wrapping_mul(3).wrapping_add(i as u8);
    }
    b
}

fn contents(id: u8, pool: u8, epoch: u64, principal: u64) -> Vec<u8> {
    bcs::to_bytes(&(bytes(id), bytes(pool), epoch, principal)).unwrap()
}

fn output(name: &str, value: Vec<u8>) -> CommandOutput {
    CommandOutput {
        return_values: vec![ReturnValue { value: Some(Bcs { name: name.to_string(), value }) }],
    }
}

fn ok(outputs: Vec<CommandOutput>) -> SimulationResponse {
    SimulationResponse { success: true, command_outputs: outputs }
}

fn expect_simulate(step: StakeInfoStep) -> StakeInfoState {
    match step {
        StakeInfoStep::Simulate { state, .. } => state,
        StakeInfoStep::Finished { .. } => panic!("expected a simulation"),
    }
}

#[test]
fn exchange_yields_one_stake_per_object_in_order() {
    let objects = vec![contents(1, 10, 5, 100), contents(2, 20, 6, 200)];
    let step = start_stake_info(&objects).unwrap();
    let request = match &step {
        StakeInfoStep::Simulate { request, .. } => request,
        _ => panic!("expected a simulation"),
    };
    assert_eq!(request.transaction.commands.len(), 2);
    assert_eq!(request.transaction.commands[0].function, "calculate_rewards");
    let state = expect_simulate(step);

    let rewards = ok(vec![
        output("u64", 7u64.to_le_bytes().to_vec()),
        output("u64", 9u64.to_le_bytes().to_vec()),
    ]);
    let step = advance_stake_info(state, &rewards).unwrap();
    match &step {
        StakeInfoStep::Simulate { request, .. } => {
            assert_eq!(request.transaction.commands[1].function, "validator_address_by_pool_id");
        }
        _ => panic!("expected a simulation"),
    }
    let state = expect_simulate(step);

    let validators = ok(vec![output("address", bytes(50).to_vec()), output("address", bytes(60).to_vec())]);
    let stakes = match advance_stake_info(state, &validators).unwrap() {
        StakeInfoStep::Finished { stakes } => stakes,
        _ => panic!("expected the end"),
    };
    assert_eq!(
        stakes,
        vec![
            DelegatedStake {
                staked_haneul_id: Address::new(bytes(1)),
                validator_address: Address::new(bytes(50)),
                staking_pool: Address::new(bytes(10)),
                activation_epoch: 5,
                principal: 100,
                rewards: 7,
            },
            DelegatedStake {
                staked_haneul_id: Address::new(bytes(2)),
                validator_address: Address::new(bytes(60)),
                staking_pool: Address::new(bytes(20)),
                activation_epoch: 6,
                principal: 200,
                rewards: 9,
            },
        ]
    );
}

#[test]
fn undecodable_object_stops_before_any_simulation() {
    let objects = vec![contents(1, 10, 5, 100), vec![]];
    assert_eq!(start_stake_info(&objects).unwrap_err(), StakingError::UnexpectedEndOfInput);
}

#[test]
fn failed_rewards_simulation_stops_the_exchange() {
    let state = expect_simulate(start_stake_info(&[contents(1, 2, 3, 4)]).unwrap());
    let failed = SimulationResponse { success: false, command_outputs: vec![] };
    assert_eq!(advance_stake_info(state, &failed).unwrap_err(), StakingError::ExecutionFailed);
}

#[test]
fn no_objects_still_run_both_simulations() {
    let state = expect_simulate(start_stake_info(&[]).unwrap());
    let state = expect_simulate(advance_stake_info(state, &ok(vec![])).unwrap());
    match advance_stake_info(state, &ok(vec![])).unwrap() {
        StakeInfoStep::Finished { stakes } => assert!(stakes.is_empty()),
        _ => panic!("expected the end"),
    }
}

#[test]
fn assemble_stops_at_the_shortest_list() {
    let s = StakedSui {
        id: Address::new(bytes(1)),
        pool_id: Address::new(bytes(2)),
        stake_activation_epoch: 3,
        principal: 4,
    };
    let out = assemble_delegated_stakes(
        vec![s, s],
        vec![(Address::new(bytes(1)), 5)],
        vec![(Address::new(bytes(2)), Address::new(bytes(9))), (Address::new(bytes(2)), Address::new(bytes(9)))],
    );
    assert_eq!(out.len(), 1);
    assert_eq!(out[0].rewards, 5);
    assert_eq!(out[0].validator_address, Address::new(bytes(9)));
}

fn stake(r: u64) -> DelegatedStake {
    DelegatedStake {
        staked_haneul_id: Address::new(bytes(1)),
        validator_address: Address::new(bytes(2)),
        staking_pool: Address::new(bytes(3)),
        activation_epoch: 0,
        principal: 1,
        rewards: r,
    }
}

#[test]
fn pager_gathers_pages_in_order() {
    let owner = Address::new(bytes(4));
    let mut pager = StakePager::new(&owner);
    {
        let r = pager.request();
        assert_eq!(r.owner, owner.to_hex());
        assert_eq!(r.page_size, 500);
        assert_eq!(r.read_mask, vec!["contents"]);
        assert_eq!(r.object_type, "0x3::staking_pool::StakedSui");
        assert_eq!(r.page_token, None);
    }
    assert!(pager.page_done(vec![stake(1), stake(2)], Some(vec![7, 7])));
    assert_eq!(pager.request().page_token, Some(vec![7, 7]));
    assert_eq!(pager.request().owner, owner.to_hex());
    assert!(pager.page_done(vec![], Some(vec![8])));
    assert_eq!(pager.request().page_token, Some(vec![8]));
    assert!(!pager.page_done(vec![stake(3)], None));
    assert_eq!(pager.request().page_token, Some(vec![8]));
    assert_eq!(pager.into_stakes(), vec![stake(1), stake(2), stake(3)]);
}
