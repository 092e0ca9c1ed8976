use memchurn::units::{parse_duration, parse_int, parse_size, UnitError};

#[test]
fn sizes_with_units() {
    assert_eq!(parse_size("512"), Ok(512));
    assert_eq!(parse_size("16B"), Ok(16));
    assert_eq!(parse_size("10KB"), Ok(10_000));
    assert_eq!(parse_size("10KiB"), Ok(10_240));
    assert_eq!(parse_size("3MB"), Ok(3_000_000));
    assert_eq!(parse_size("1MiB"), Ok(1 << 20));
    assert_eq!(parse_size("2GB"), Ok(2_000_000_000));
    assert_eq!(parse_size("1GiB"), Ok(1 << 30));
}

#[test]
fn bad_sizes_are_refused() {
    assert_eq!(parse_size(""), Err(UnitError::Number));
    assert_eq!(parse_size("KB"), Err(UnitError::Number));
    assert_eq!(parse_size("+5"), Err(UnitError::Number));
    assert_eq!(parse_size("10kb"), Err(UnitError::Unit));
    assert_eq!(parse_size("10 KB"), Err(UnitError::Unit));
    assert_eq!(parse_size("99999999999999999999"), Err(UnitError::Number));
    assert_eq!(parse_size("18446744073709551615GiB"), Err(UnitError::Overflow));
}

#[test]
fn durations_with_units() {
    assert_eq!(parse_duration("45"), Ok(45));
    assert_eq!(parse_duration("45s"), Ok(45));
    assert_eq!(parse_duration("2min"), Ok(120));
    assert_eq!(parse_duration("2h"), Err(UnitError::Unit));
    assert_eq!(parse_duration("min"), Err(UnitError::Number));
}

#[test]
fn plain_integers() {
    assert_eq!(parse_int("10000"), Ok(10_000));
    assert_eq!(parse_int("+7"), Ok(7));
    assert_eq!(parse_int("0"), Ok(0));
    assert_eq!(parse_int(""), Err(UnitError::Number));
    assert_eq!(parse_int("-1"), Err(UnitError::Number));
    assert_eq!(parse_int("1e3"), Err(UnitError::Number));
    assert_eq!(parse_int("18446744073709551616"), Err(UnitError::Number));
}
