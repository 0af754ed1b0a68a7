use escrow_fight::Amount;

fn amount(bytes: &[u8]) -> Amount {
    Amount::from_bytes_be(bytes.to_vec())
}

#[test]
fn bytes_come_back_in_shortest_form() {
    assert_eq!(amount(&[1, 2, 3]).to_bytes_be(), vec![1, 2, 3]);
    assert_eq!(amount(&[0, 0, 1, 0]).to_bytes_be(), vec![1, 0]);
    assert_eq!(amount(&[0, 0, 0]).to_bytes_be(), Vec::<u8>::new());
    assert_eq!(amount(&[]).to_bytes_be(), Vec::<u8>::new());
}

#[test]
fn equality_ignores_zeros_in_front() {
    assert_eq!(amount(&[100]), amount(&[0, 0, 100]));
    assert_eq!(amount(&[0, 100]), amount(&[100]));
    assert_eq!(amount(&[]), amount(&[0]));
    assert_eq!(amount(&[1, 0]), amount(&[0, 1, 0]));
}

#[test]
fn equality_tells_different_amounts_apart() {
    assert_ne!(amount(&[100]), amount(&[101]));
    assert_ne!(amount(&[100]), amount(&[99]));
    assert_ne!(amount(&[1, 0]), amount(&[1]));
    assert_ne!(amount(&[1]), amount(&[1, 0]));
    assert_ne!(amount(&[1, 100]), amount(&[100]));
    assert_ne!(amount(&[]), amount(&[1]));
    assert_ne!(amount(&[2, 5]), amount(&[3, 5]));
}

#[test]
fn doubling_small_amounts() {
    assert_eq!(amount(&[100]).doubled().to_bytes_be(), vec![200]);
    assert_eq!(amount(&[1]).doubled().to_bytes_be(), vec![2]);
    assert_eq!(amount(&[127]).doubled().to_bytes_be(), vec![254]);
}

#[test]
fn doubling_zero_is_zero() {
    assert_eq!(amount(&[]).doubled().to_bytes_be(), Vec::<u8>::new());
    assert_eq!(amount(&[0, 0]).doubled().to_bytes_be(), Vec::<u8>::new());
}

#[test]
fn doubling_carries_into_the_next_byte() {
    assert_eq!(amount(&[128]).doubled().to_bytes_be(), vec![1, 0]);
    assert_eq!(amount(&[255]).doubled().to_bytes_be(), vec![1, 254]);
    assert_eq!(amount(&[1, 128]).doubled().to_bytes_be(), vec![3, 0]);
    assert_eq!(amount(&[255, 255]).doubled().to_bytes_be(), vec![1, 255, 254]);
    assert_eq!(amount(&[0, 128, 0]).doubled().to_bytes_be(), vec![1, 0, 0]);
}

#[test]
fn doubling_goes_beyond_machine_integers() {
    let mut bytes = vec![0xffu8; 16];
    let max = u128::MAX;
    assert_eq!(bytes, max.to_be_bytes().to_vec());
    let twice = amount(&bytes).doubled().to_bytes_be();
    bytes[15] = 0xfe;
    let mut expected = vec![1u8];
    expected.extend_from_slice(&bytes);
    assert_eq!(twice, expected);
}

#[test]
fn doubling_agrees_with_integer_arithmetic() {
    for value in [0u64, 1, 2, 127, 128, 255, 256, 65_535, 1_000_000_007, u64::MAX / 2, u64::MAX] {
        let twice = amount(&value.to_be_bytes()).doubled();
        let expected = (value as u128) * 2;
        assert_eq!(twice, amount(&expected.to_be_bytes()));
    }
}

#[test]
fn clone_keeps_the_amount() {
    let fee = amount(&[0, 9, 8, 7]);
    let copy = fee.clone();
    assert_eq!(copy, fee);
    assert_eq!(copy.to_bytes_be(), vec![9, 8, 7]);
}
