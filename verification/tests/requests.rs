use haneul_staking::address::Address;
use haneul_staking::headers;
use haneul_staking::listing::{get_object_request, object_contents, single_stake, LIST_PAGE_SIZE};
use haneul_staking::ptb::{
    calculate_rewards_request, validator_addresses_request, Argument, Input, MoveCall,
};
use haneul_staking::stake::DelegatedStake;

fn addr(last: u8) -> Address {
    let mut b = [0u8; 32];
    b[31] = last;
    Address::new(b)
}

fn call_is(c: &MoveCall, function: &str, index: u16) {
    assert_eq!(c.package, "0x3");
    assert_eq!(c.module, "haneul_system");
    assert_eq!(c.function, function);
    assert_eq!(c.arguments, vec![Argument::Input(0), Argument::Input(index)]);
}

#[test]
fn rewards_request_has_one_call_per_stake() {
    let ids = [addr(1), addr(2)];
    let req = calculate_rewards_request(&ids);
    assert_eq!(req.sender, "0x0");
    assert!(req.checks_disabled);
    assert_eq!(
        req.read_mask,
        vec!["command_outputs.return_values.value", "transaction.effects.status"]
    );
    let t = &req.transaction;
    assert_eq!(t.inputs.len(), 3);
    assert!(matches!(&t.inputs[0], Input::ObjectId(s) if s == "0x5"));
    assert!(matches!(&t.inputs[1], Input::ObjectId(s) if *s == addr(1).to_hex()));
    assert!(matches!(&t.inputs[2], Input::ObjectId(s) if *s == addr(2).to_hex()));
    assert_eq!(t.commands.len(), 2);
    call_is(&t.commands[0], "calculate_rewards", 1);
    call_is(&t.commands[1], "calculate_rewards", 2);
}

#[test]
fn validator_request_passes_pool_ids_as_pure_bytes() {
    let pools = [addr(9)];
    let req = validator_addresses_request(&pools);
    let t = &req.transaction;
    assert_eq!(t.inputs.len(), 2);
    assert!(matches!(&t.inputs[0], Input::ObjectId(s) if s == "0x5"));
    assert!(matches!(&t.inputs[1], Input::Pure(b) if *b == addr(9).to_vec()));
    assert_eq!(t.commands.len(), 1);
    call_is(&t.commands[0], "validator_address_by_pool_id", 1);
    assert_eq!(req.sender, "0x0");
}

#[test]
fn empty_request_still_names_the_system_state() {
    let req = calculate_rewards_request(&[]);
    assert_eq!(req.transaction.inputs.len(), 1);
    assert!(req.transaction.commands.is_empty());
}

#[test]
fn input_indices_wrap_at_65536() {
    let ids = vec![addr(0); 65536];
    let req = validator_addresses_request(&ids);
    let cmds = &req.transaction.commands;
    assert_eq!(cmds[65534].arguments[1], Argument::Input(65535));
    assert_eq!(cmds[65535].arguments[1], Argument::Input(0));
}

#[test]
fn get_object_request_asks_for_contents() {
    let req = get_object_request(&addr(7));
    assert_eq!(req.object_id, addr(7).to_hex());
    assert_eq!(req.read_mask, vec!["contents"]);
}

#[test]
fn missing_object_has_empty_contents() {
    assert_eq!(object_contents(None), vec![Vec::<u8>::new()]);
    assert_eq!(object_contents(Some(vec![1, 2])), vec![vec![1u8, 2]]);
}

#[test]
fn single_stake_is_the_first() {
    let s = DelegatedStake {
        staked_haneul_id: addr(1),
        validator_address: addr(2),
        staking_pool: addr(3),
        activation_epoch: 4,
        principal: 5,
        rewards: 6,
    };
    assert_eq!(single_stake(vec![s]), s);
}

#[test]
fn page_size_and_headers() {
    assert_eq!(LIST_PAGE_SIZE, 500);
    assert_eq!(headers::X_HANEUL_CHAIN_ID, "x-haneul-chain-id");
    assert_eq!(headers::X_HANEUL_CHAIN, "x-haneul-chain");
    assert_eq!(headers::X_HANEUL_CHECKPOINT_HEIGHT, "x-haneul-checkpoint-height");
    assert_eq!(
        headers::X_HANEUL_LOWEST_AVAILABLE_CHECKPOINT,
        "x-haneul-lowest-available-checkpoint"
    );
    assert_eq!(
        headers::X_HANEUL_LOWEST_AVAILABLE_CHECKPOINT_OBJECTS,
        "x-haneul-lowest-available-checkpoint-objects"
    );
    assert_eq!(headers::X_HANEUL_EPOCH, "x-haneul-epoch");
    assert_eq!(headers::X_HANEUL_TIMESTAMP_MS, "x-haneul-timestamp-ms");
    assert_eq!(headers::X_HANEUL_TIMESTAMP, "x-haneul-timestamp");
}
