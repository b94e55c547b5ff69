use haneul_staking::address::Address;
use haneul_staking::error::StakingError;
use haneul_staking::stake::{decode_staked_suis, StakedSui, STAKED_SUI_LENGTH};
use haneul_staking::wire::read_u64_le;

fn addr(seed: u8) -> [u8; 32] {
    let mut b = [0u8; 32];
    for (i, x) in b.iter_mut().enumerate() {
        *x = seed.wrapping_add(i as u8);
    }
    b
}

fn encoded(id: [u8; 32], pool: [u8; 32], epoch: u64, principal: u64) -> Vec<u8> {
    bcs::to_bytes(&(id, pool, epoch, principal)).unwrap()
}

#[test]
fn read_u64_le_reads_little_endian() {
    let bytes = [0xffu8, 1, 2, 3, 4, 5, 6, 7, 8, 0xee];
    assert_eq!(read_u64_le(&bytes, 1), 0x0807060504030201);
    assert_eq!(read_u64_le(&[0xff; 8], 0), u64::MAX);
    assert_eq!(read_u64_le(&[0; 8], 0), 0);
}

#[test]
fn staked_sui_decodes_bcs_layout() {
    let bytes = encoded(addr(1), addr(100), 42, 1_000_000_000);
    assert_eq!(bytes.len(), STAKED_SUI_LENGTH);
    let s = StakedSui::from_bcs(&bytes).unwrap();
    assert_eq!(
        s,
        StakedSui {
            id: Address::new(addr(1)),
            pool_id: Address::new(addr(100)),
            stake_activation_epoch: 42,
            principal: 1_000_000_000,
        }
    );
}

#[test]
fn staked_sui_agrees_with_bcs_on_short_and_long_input() {
    let full = encoded(addr(3), addr(4), 7, 8);
    for len in [0usize, 1, 31, 32, 64, 72, 79] {
        let short = &full[..len];
        let theirs = bcs::from_bytes::<([u8; 32], [u8; 32], u64, u64)>(short).unwrap_err();
        let ours = StakedSui::from_bcs(short).unwrap_err();
        assert_eq!(ours, StakingError::UnexpectedEndOfInput);
        assert_eq!(ours.message(), theirs.to_string());
    }
    let mut long = full.clone();
    long.push(0);
    let theirs = bcs::from_bytes::<([u8; 32], [u8; 32], u64, u64)>(&long).unwrap_err();
    let ours = StakedSui::from_bcs(&long).unwrap_err();
    assert_eq!(ours, StakingError::RemainingInput);
    assert_eq!(ours.message(), theirs.to_string());
}

#[test]
fn decode_staked_suis_keeps_order_and_stops_at_first_failure() {
    let a = encoded(addr(1), addr(2), 3, 4);
    let b = encoded(addr(5), addr(6), 7, 8);
    let all = decode_staked_suis(&[a.clone(), b.clone()]).unwrap();
    assert_eq!(all.len(), 2);
    assert_eq!(all[0].id, Address::new(addr(1)));
    assert_eq!(all[1].principal, 8);

    let mut long = b.clone();
    long.push(1);
    let err = decode_staked_suis(&[a.clone(), vec![0; 5], long]).unwrap_err();
    assert_eq!(err, StakingError::UnexpectedEndOfInput);

    assert_eq!(decode_staked_suis(&[]).unwrap(), vec![]);
}

#[test]
fn error_messages_are_the_reported_texts() {
    assert_eq!(StakingError::ExecutionFailed.message(), "transaction execution failed");
    assert_eq!(
        StakingError::MissingCommandOutputs.message(),
        "missing transaction command_outputs"
    );
    assert_eq!(StakingError::MissingBcs.message(), "missing bcs");
    assert_eq!(StakingError::MissingRewards.message(), "missing rewards");
    assert_eq!(StakingError::MissingAddress.message(), "missing address");
    assert_eq!(StakingError::UnexpectedEndOfInput.message(), "unexpected end of input");
    assert_eq!(StakingError::RemainingInput.message(), "remaining input");
}
