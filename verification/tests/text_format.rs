use remote_memory::text::{i64_to_decimal, join_with_space, u64_to_decimal};

#[test]
fn decimal_matches_the_standard_formatting() {
    for n in [0u64, 7, 9, 10, 11, 99, 100, 1234567890, u64::MAX] {
        assert_eq!(u64_to_decimal(n), n.to_string());
    }
    for n in [0i64, -1, 1, -10, 42, -2147483648, i64::MIN, i64::MAX] {
        assert_eq!(i64_to_decimal(n), n.to_string());
    }
    assert_eq!(u64_to_decimal(18446744073709551615), "18446744073709551615");
    assert_eq!(i64_to_decimal(-9223372036854775808), "-9223372036854775808");
}

#[test]
fn joining_puts_one_space_between_parts() {
    assert_eq!(join_with_space(&vec![]), "");
    assert_eq!(join_with_space(&vec!["a".to_string()]), "a");
    assert_eq!(
        join_with_space(&vec!["ls".to_string(), "-l".to_string(), "/tmp".to_string()]),
        "ls -l /tmp"
    );
    assert_eq!(join_with_space(&vec![String::new(), String::new()]), " ");
}
