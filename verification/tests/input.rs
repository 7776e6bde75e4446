use arbitrary::Unstructured;
use runtime_fuzzing::input::{
    any_bool, any_u128, any_u8, u128_in_range, u32_in_range, u8_in_range,
};

#[test]
fn small_range_takes_one_byte() {
    let mut u = Unstructured::new(&[250, 7]);
    assert_eq!(u8_in_range(&mut u, 0, 99), Ok(50));
    assert_eq!(u.len(), 1);
    assert_eq!(u8_in_range(&mut u, 10, 20), Ok(17));
    assert_eq!(u.len(), 0);
}

#[test]
fn single_value_range_takes_no_byte() {
    let mut u = Unstructured::new(&[9]);
    assert_eq!(u8_in_range(&mut u, 4, 4), Ok(4));
    assert_eq!(u.len(), 1);
}

#[test]
fn ranges_are_read_most_significant_byte_first() {
    let mut u = Unstructured::new(&[1, 2, 3, 4, 5]);
    assert_eq!(u32_in_range(&mut u, 0, u32::MAX), Ok(0x0102_0304));
    assert_eq!(u.len(), 1);
    let mut u = Unstructured::new(&[1, 2, 3]);
    assert_eq!(u32_in_range(&mut u, 1, 1000), Ok(1 + 0x0102));
    assert_eq!(u.len(), 1);
    let mut u = Unstructured::new(&[1, 0, 0, 7]);
    assert_eq!(u128_in_range(&mut u, 5, 5 + 0xff_ffff), Ok(5 + 0x01_0000));
    assert_eq!(u.len(), 1);
}

#[test]
fn short_data_counts_as_what_is_there() {
    let mut u = Unstructured::new(&[2, 1]);
    assert_eq!(u32_in_range(&mut u, 0, u32::MAX), Ok(0x0201));
    assert_eq!(u32_in_range(&mut u, 17, u32::MAX), Ok(17));
}

#[test]
fn flag_is_the_lowest_bit() {
    let mut u = Unstructured::new(&[3, 4]);
    assert_eq!(any_bool(&mut u), Ok(true));
    assert_eq!(any_bool(&mut u), Ok(false));
    assert_eq!(any_bool(&mut u), Ok(false));
}

#[test]
fn whole_integers_are_read_least_significant_byte_first() {
    let mut u = Unstructured::new(&[200, 1, 2, 3]);
    assert_eq!(any_u8(&mut u), Ok(200));
    assert_eq!(any_u128(&mut u), Ok(0x03_0201));
    assert_eq!(any_u8(&mut u), Ok(0));
    let bytes: Vec<u8> = (1..=16).collect();
    let mut u = Unstructured::new(&bytes);
    assert_eq!(any_u128(&mut u), Ok(0x100f_0e0d_0c0b_0a09_0807_0605_0403_0201));
}
