use haneul_staking::address::{Address, AddressParseError, ADDRESS_LENGTH};

fn sample() -> [u8; 32] {
    let mut b = [0u8; 32];
    for (i, x) in b.iter_mut().enumerate() {
        *x = i as u8 * 7;
    }
    b
}

#[test]
fn address_from_bytes_accepts_exactly_32_bytes() {
    let b = sample();
    let a = Address::from_bytes(&b).unwrap();
    assert_eq!(a.into_inner(), b);
    assert_eq!(a, Address::new(b));
    assert_eq!(ADDRESS_LENGTH, 32);
}

#[test]
fn address_from_bytes_rejects_other_lengths() {
    assert_eq!(Address::from_bytes(&[1u8; 31]), Err(AddressParseError));
    assert_eq!(Address::from_bytes(&[1u8; 33]), Err(AddressParseError));
    assert_eq!(Address::from_bytes(&[]), Err(AddressParseError));
}

#[test]
fn address_read_at_takes_the_window() {
    let mut buf = vec![9u8; 3];
    buf.extend_from_slice(&sample());
    buf.push(1);
    assert_eq!(Address::read_at(&buf, 3), Address::new(sample()));
}

#[test]
fn address_hex_is_0x_and_64_lower_case_digits() {
    let mut b = [0u8; 32];
    b[31] = 5;
    assert_eq!(
        Address::new(b).to_hex(),
        "0x0000000000000000000000000000000000000000000000000000000000000005"
    );
    let mut c = [0u8; 32];
    c[0] = 0xab;
    c[1] = 0x1f;
    c[31] = 0xff;
    assert_eq!(
        Address::new(c).to_hex(),
        "0xab1f0000000000000000000000000000000000000000000000000000000000ff"
    );
}

#[test]
fn address_to_vec_and_as_bytes_keep_the_bytes() {
    let a = Address::new(sample());
    assert_eq!(a.to_vec(), sample().to_vec());
    assert_eq!(a.as_bytes(), &sample());
}
