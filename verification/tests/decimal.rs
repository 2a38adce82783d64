use hlq_os::decimal::push_decimal;

fn digits(n: u64) -> Vec<u8> {
    let mut v = Vec::new();
    push_decimal(&mut v, n);
    v
}

#[test]
fn decimal_of_small_numbers() {
    assert_eq!(digits(0), b"0".to_vec());
    assert_eq!(digits(7), b"7".to_vec());
    assert_eq!(digits(10), b"10".to_vec());
    assert_eq!(digits(4096), b"4096".to_vec());
}

#[test]
fn decimal_of_largest() {
    assert_eq!(digits(u64::MAX), b"18446744073709551615".to_vec());
}

#[test]
fn decimal_appends() {
    let mut v = b"n=".to_vec();
    push_decimal(&mut v, 305);
    assert_eq!(v, b"n=305".to_vec());
}

#[test]
fn decimal_matches_std() {
    for n in [1u64, 9, 99, 100, 12345, 1 << 40, u64::MAX - 1] {
        assert_eq!(digits(n), n.to_string().into_bytes());
    }
}
