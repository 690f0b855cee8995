use pylon_gov::common::{attr, attr_number, key_less, page, page_limit, AttributeValue, OrderBy};
use pylon_gov::error::ContractError;
use pylon_gov::math::scale;
use pylon_gov::math::{multiply_ratio, Decimal, RatioError, DECIMAL_FRACTIONAL};

#[test]
fn ratio_rounds_down() {
    assert_eq!(multiply_ratio(5, 99, 100), Ok(4));
    assert_eq!(multiply_ratio(500, 1000, 2000), Ok(250));
    assert_eq!(multiply_ratio(7, 1, 2), Ok(3));
    assert_eq!(multiply_ratio(0, 5, 3), Ok(0));
}

#[test]
fn ratio_uses_the_full_product() {
    // the product does not fit in 128 bits, the quotient does
    assert_eq!(multiply_ratio(u128::MAX, 4, 8), Ok(u128::MAX / 2));
    assert_eq!(multiply_ratio(u128::MAX, u128::MAX, u128::MAX), Ok(u128::MAX));
}

#[test]
fn ratio_reports_zero_denominator() {
    assert_eq!(multiply_ratio(1, 1, 0), Err(RatioError::DivideByZero));
    assert_eq!(multiply_ratio(0, 0, 0), Err(RatioError::DivideByZero));
}

#[test]
fn ratio_reports_overflow() {
    assert_eq!(multiply_ratio(u128::MAX, 2, 1), Err(RatioError::Overflow));
    assert_eq!(multiply_ratio(u128::MAX, 3, 2), Err(RatioError::Overflow));
}

#[test]
fn scale_maps_the_failures() {
    assert_eq!(scale(10, 3, 4), Ok(7));
    assert_eq!(scale(1, 1, 0), Err(ContractError::DivideByZero));
    assert_eq!(scale(u128::MAX, 2, 1), Err(ContractError::Overflow));
}

#[test]
fn decimal_from_ratio() {
    assert_eq!(Decimal::from_ratio(1, 2), Ok(Decimal { atomics: 500_000_000_000_000_000 }));
    assert_eq!(Decimal::from_ratio(1, 3), Ok(Decimal { atomics: 333_333_333_333_333_333 }));
    assert_eq!(Decimal::from_ratio(3, 1), Ok(Decimal { atomics: 3 * DECIMAL_FRACTIONAL }));
    assert_eq!(Decimal::from_ratio(1, 0), Err(RatioError::DivideByZero));
    assert_eq!(Decimal::from_ratio(u128::MAX, 1), Err(RatioError::Overflow));
}

#[test]
fn decimal_constants() {
    assert_eq!(Decimal::zero().atomics, 0);
    assert!(Decimal::zero().is_zero());
    assert_eq!(Decimal::one().atomics, DECIMAL_FRACTIONAL);
    assert_eq!(Decimal::percent(50), Decimal { atomics: DECIMAL_FRACTIONAL / 2 });
    assert_eq!(Decimal::percent(u64::MAX).atomics, u64::MAX as u128 * 10_000_000_000_000_000);
    assert_eq!(Decimal::raw(7).atomics, 7);
}

#[test]
fn decimal_add_and_sub() {
    let a = Decimal::raw(5);
    let b = Decimal::raw(7);
    assert_eq!(a.checked_add(b), Some(Decimal::raw(12)));
    assert_eq!(b.checked_sub(a), Some(Decimal::raw(2)));
    assert_eq!(a.checked_sub(b), None);
    assert_eq!(Decimal::raw(u128::MAX).checked_add(Decimal::raw(1)), None);
}

#[test]
fn decimal_mul_floor() {
    assert_eq!(Decimal::percent(50).mul_floor(7), Ok(3));
    assert_eq!(Decimal::one().mul_floor(u128::MAX), Ok(u128::MAX));
    assert_eq!(Decimal::percent(200).mul_floor(u128::MAX), Err(RatioError::Overflow));
    assert_eq!(Decimal::zero().mul_floor(u128::MAX), Ok(0));
}

#[test]
fn page_limit_defaults_and_caps() {
    assert_eq!(page_limit(None), 50);
    assert_eq!(page_limit(Some(0)), 0);
    assert_eq!(page_limit(Some(99)), 99);
    assert_eq!(page_limit(Some(100)), 100);
    assert_eq!(page_limit(Some(101)), 100);
    assert_eq!(page_limit(Some(u32::MAX)), 100);
}

#[test]
fn page_walks_up_and_down() {
    let mask = vec![true, false, true, true, false, true];
    assert_eq!(page(&mask, OrderBy::Asc, 10), vec![0, 2, 3, 5]);
    assert_eq!(page(&mask, OrderBy::Desc, 10), vec![5, 3, 2, 0]);
    assert_eq!(page(&mask, OrderBy::Asc, 2), vec![0, 2]);
    assert_eq!(page(&mask, OrderBy::Desc, 2), vec![5, 3]);
    assert_eq!(page(&mask, OrderBy::Asc, 0), Vec::<usize>::new());
    assert_eq!(page(&Vec::new(), OrderBy::Desc, 5), Vec::<usize>::new());
}

#[test]
fn keys_go_byte_by_byte() {
    assert!(key_less(b"", b"a"));
    assert!(!key_less(b"", b""));
    assert!(!key_less(b"a", b""));
    assert!(key_less(b"a", b"b"));
    assert!(!key_less(b"b", b"a"));
    assert!(key_less(b"ab", b"b"));
    assert!(key_less(b"a", b"ab"));
    assert!(!key_less(b"ab", b"a"));
    assert!(!key_less(b"ab", b"ab"));
    assert!(key_less(b"abc", b"abd"));
    assert!(key_less(b"Z", b"a"));
    assert!(key_less(&[1, 255], &[2, 0]));
}

#[test]
fn attributes_hold_text_or_numbers() {
    let a = attr("action", "unlock");
    assert_eq!(a.key, "action");
    assert_eq!(a.value, AttributeValue::Text("unlock".to_string()));
    let n = attr_number("amount", 12);
    assert_eq!(n.key, "amount");
    assert_eq!(n.value, AttributeValue::Number(12));
}

#[test]
fn error_messages() {
    assert_eq!(ContractError::Unauthorized.message(), "Unauthorized");
    assert_eq!(ContractError::NothingStaked.message(), "Nothing staked");
    assert_eq!(ContractError::InvalidWithdrawAmount.message(), "Invalid withdraw amount");
    assert_eq!(ContractError::InvalidReplyId.message(), "Invalid reply ID");
}
