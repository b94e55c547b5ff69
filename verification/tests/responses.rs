use haneul_staking::address::Address;
use haneul_staking::error::StakingError;
use haneul_staking::simulation::{
    decode_rewards, decode_validators, Bcs, CommandOutput, ReturnValue, SimulationResponse,
};

fn addr(last: u8) -> Address {
    let mut b = [0u8; 32];
    b[31] = last;
    Address::new(b)
}

fn output(name: &str, value: Vec<u8>) -> CommandOutput {
    CommandOutput {
        return_values: vec![ReturnValue { value: Some(Bcs { name: name.to_string(), value }) }],
    }
}

fn u64_output(v: u64) -> CommandOutput {
    output("u64", v.to_le_bytes().to_vec())
}

fn ok(outputs: Vec<CommandOutput>) -> SimulationResponse {
    SimulationResponse { success: true, command_outputs: outputs }
}

#[test]
fn rewards_are_paired_with_their_ids() {
    let ids = [addr(1), addr(2)];
    let r = decode_rewards(&ids, &ok(vec![u64_output(10), u64_output(0x0102030405060708)])).unwrap();
    assert_eq!(r, vec![(addr(1), 10), (addr(2), 0x0102030405060708)]);
}

#[test]
fn failed_simulation_is_reported_first() {
    let resp = SimulationResponse { success: false, command_outputs: vec![] };
    assert_eq!(decode_rewards(&[addr(1)], &resp), Err(StakingError::ExecutionFailed));
    assert_eq!(decode_validators(&[addr(1)], &resp), Err(StakingError::ExecutionFailed));
}

#[test]
fn output_count_must_match() {
    let resp = ok(vec![u64_output(1)]);
    assert_eq!(decode_rewards(&[addr(1), addr(2)], &resp), Err(StakingError::MissingCommandOutputs));
    assert_eq!(decode_rewards(&[], &resp), Err(StakingError::MissingCommandOutputs));
    assert_eq!(decode_rewards(&[], &ok(vec![])), Ok(vec![]));
}

#[test]
fn missing_return_value_is_missing_bcs() {
    let none = CommandOutput { return_values: vec![ReturnValue { value: None }] };
    let empty = CommandOutput { return_values: vec![] };
    assert_eq!(decode_rewards(&[addr(1)], &ok(vec![none])), Err(StakingError::MissingBcs));
    assert_eq!(decode_validators(&[addr(1)], &ok(vec![empty])), Err(StakingError::MissingBcs));
}

#[test]
fn wrong_reward_value_is_missing_rewards() {
    let wrong_name = output("u32", 5u64.to_le_bytes().to_vec());
    let wrong_len = output("u64", vec![1, 2, 3]);
    assert_eq!(decode_rewards(&[addr(1)], &ok(vec![wrong_name])), Err(StakingError::MissingRewards));
    assert_eq!(decode_rewards(&[addr(1)], &ok(vec![wrong_len])), Err(StakingError::MissingRewards));
}

#[test]
fn first_failing_output_decides_the_error() {
    let none = CommandOutput { return_values: vec![ReturnValue { value: None }] };
    let bad = output("u64", vec![]);
    let resp = ok(vec![u64_output(1), bad, none]);
    assert_eq!(
        decode_rewards(&[addr(1), addr(2), addr(3)], &resp),
        Err(StakingError::MissingRewards)
    );
}

#[test]
fn validators_are_paired_with_their_pools() {
    let v = addr(200);
    let resp = ok(vec![output("address", v.to_vec())]);
    assert_eq!(decode_validators(&[addr(3)], &resp), Ok(vec![(addr(3), v)]));
}

#[test]
fn wrong_validator_value_is_missing_address() {
    let short = output("address", vec![0; 31]);
    let named = output("u64", vec![0; 32]);
    assert_eq!(decode_validators(&[addr(1)], &ok(vec![short])), Err(StakingError::MissingAddress));
    assert_eq!(decode_validators(&[addr(1)], &ok(vec![named])), Err(StakingError::MissingAddress));
}

#[test]
fn only_the_first_return_value_counts() {
    let o = CommandOutput {
        return_values: vec![
            ReturnValue { value: Some(Bcs { name: "u64".to_string(), value: 3u64.to_le_bytes().to_vec() }) },
            ReturnValue { value: None },
        ],
    };
    assert_eq!(decode_rewards(&[addr(1)], &ok(vec![o])), Ok(vec![(addr(1), 3)]));
}
