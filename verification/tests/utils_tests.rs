use cauldron::utils::{narrow_to_i8, narrow_to_i16, narrow_to_i24, u8_from_signed};

#[test]
fn test_narrow_to_i8() {
    assert!(narrow_to_i8(127).is_ok());
    assert!(narrow_to_i8(128).is_err());
    assert!(narrow_to_i8(-128).is_ok());
    assert!(narrow_to_i8(-129).is_err());
}

#[test]
fn test_narrow_to_i16() {
    assert!(narrow_to_i16(32767).is_ok());
    assert!(narrow_to_i16(32768).is_err());
    assert!(narrow_to_i16(-32768).is_ok());
    assert!(narrow_to_i16(-32769).is_err());
}

#[test]
fn test_narrow_to_i24() {
    assert!(narrow_to_i24(8_388_607).is_ok());
    assert!(narrow_to_i24(8_388_608).is_err());
    assert!(narrow_to_i24(-8_388_608).is_ok());
    assert!(narrow_to_i24(-8_388_609).is_err());
}

#[test]
fn test_narrow_values() {
    assert_eq!(narrow_to_i8(-7).unwrap(), -7);
    assert_eq!(narrow_to_i16(-30_000).unwrap(), -30_000);
    assert_eq!(narrow_to_i24(1_000_000).unwrap(), 1_000_000);
}

#[test]
fn test_u8_from_signed() {
    assert_eq!(u8_from_signed(-128), 0);
    assert_eq!(u8_from_signed(0), 128);
    assert_eq!(u8_from_signed(127), 255);
}
