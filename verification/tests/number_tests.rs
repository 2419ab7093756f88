use ethers::types::U256;
use function_layer::number::{integer_part_of_double, is_negative_double, truncate_number};
use function_layer::uint256::Uint256;

fn part(double: f64) -> Option<[u64; 4]> {
    integer_part_of_double(double.to_bits()).map(|n| n.limbs)
}

#[test]
fn integer_part_of_small_doubles() {
    assert_eq!(part(0.0), Some([0, 0, 0, 0]));
    assert_eq!(part(0.999), Some([0, 0, 0, 0]));
    assert_eq!(part(1.0), Some([1, 0, 0, 0]));
    assert_eq!(part(1.5), Some([1, 0, 0, 0]));
    assert_eq!(part(2.0), Some([2, 0, 0, 0]));
    assert_eq!(part(3.999_999), Some([3, 0, 0, 0]));
    assert_eq!(part(1234567.89), Some([1234567, 0, 0, 0]));
    assert_eq!(part(5e-324), Some([0, 0, 0, 0]));
    assert_eq!(part(2.2250738585072014e-308), Some([0, 0, 0, 0]));
}

#[test]
fn integer_part_is_exact_around_the_width_of_the_significand() {
    assert_eq!(part(4503599627370496.0), Some([1 << 52, 0, 0, 0]));
    assert_eq!(part(4503599627370497.0), Some([(1 << 52) + 1, 0, 0, 0]));
    assert_eq!(part(9007199254740991.0), Some([(1 << 53) - 1, 0, 0, 0]));
    assert_eq!(part(9007199254740992.0), Some([1 << 53, 0, 0, 0]));
    assert_eq!(part(4503599627370495.5), Some([(1 << 52) - 1, 0, 0, 0]));
    assert_eq!(part(18446744073709551616.0), Some([0, 1, 0, 0]));
}

#[test]
fn integer_part_of_large_doubles_agrees_with_shifting_the_significand() {
    for double in [1e30, 1e77, 3.5e40, 6.02214076e23, 2f64.powi(200) * 1.75] {
        let bits = double.to_bits();
        let exponent = ((bits >> 52) & 0x7ff) as usize;
        let significand = U256::from((1u64 << 52) | (bits & ((1u64 << 52) - 1)));
        let expected = significand << (exponent - 1075);
        assert_eq!(part(double), Some(expected.0));
    }
}

#[test]
fn integer_part_beyond_256_bits_is_refused() {
    assert_eq!(part(2f64.powi(255)), Some([0, 0, 0, 1 << 63]));
    let largest = f64::from_bits((1278u64 << 52) | ((1u64 << 52) - 1));
    assert_eq!(part(largest), Some([0, 0, 0, u64::MAX << 11]));
    assert_eq!(part(2f64.powi(256)), None);
    assert_eq!(part(1e78), None);
    assert_eq!(part(f64::MAX), None);
}

#[test]
fn integer_part_ignores_the_sign() {
    assert_eq!(part(-1.5), Some([1, 0, 0, 0]));
    assert_eq!(part(-0.0), Some([0, 0, 0, 0]));
}

#[test]
fn is_negative_double_spares_zero() {
    assert!(is_negative_double((-1.5f64).to_bits()));
    assert!(is_negative_double((-5e-324f64).to_bits()));
    assert!(!is_negative_double((-0.0f64).to_bits()));
    assert!(!is_negative_double(0.0f64.to_bits()));
    assert!(!is_negative_double(1.5f64.to_bits()));
}

#[test]
fn truncate_number_prefers_the_unsigned_value() {
    let limbs = |n: Option<Uint256>| n.map(|n| n.limbs);
    assert_eq!(limbs(truncate_number(Some(7), Some(9.5f64.to_bits()))), Some([7, 0, 0, 0]));
    assert_eq!(limbs(truncate_number(Some(u64::MAX), None)), Some([u64::MAX, 0, 0, 0]));
    assert_eq!(limbs(truncate_number(None, Some(9.5f64.to_bits()))), Some([9, 0, 0, 0]));
    assert_eq!(limbs(truncate_number(None, Some((-9.5f64).to_bits()))), None);
    assert_eq!(limbs(truncate_number(None, Some((-0.0f64).to_bits()))), Some([0, 0, 0, 0]));
    assert_eq!(limbs(truncate_number(None, Some(1e300f64.to_bits()))), None);
    assert_eq!(limbs(truncate_number(None, None)), None);
}

#[test]
fn doubled_carries_between_limbs_and_refuses_overflow() {
    let limbs = |n: Uint256| n.doubled().map(|n| n.limbs);
    assert_eq!(limbs(Uint256::from_u64(0)), Some([0, 0, 0, 0]));
    assert_eq!(limbs(Uint256::from_u64(21)), Some([42, 0, 0, 0]));
    assert_eq!(limbs(Uint256 { limbs: [1 << 63, 0, 0, 0] }), Some([0, 1, 0, 0]));
    assert_eq!(
        limbs(Uint256 { limbs: [u64::MAX, u64::MAX, u64::MAX, u64::MAX >> 1] }),
        Some([u64::MAX - 1, u64::MAX, u64::MAX, u64::MAX])
    );
    assert_eq!(limbs(Uint256 { limbs: [0, 1 << 63, 1 << 63, 1] }), Some([0, 0, 1, 3]));
    assert_eq!(limbs(Uint256 { limbs: [0, 0, 0, 1 << 63] }), None);
    assert_eq!(limbs(Uint256 { limbs: [u64::MAX; 4] }), None);
}
