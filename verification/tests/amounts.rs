use bigdecimal::num_bigint::BigInt;
use bigdecimal::BigDecimal;
use oryx::amount::{current_ratio, scale, scaled_units, ScaledAmount};
use oryx::text::{prettify, try_prettify, two_places};

fn amount(digits: &[u8], scale: i64) -> ScaledAmount {
    ScaledAmount::new(digits.to_vec(), scale).unwrap()
}

#[test]
fn scaled_units_divide_by_the_power_of_ten() {
    assert_eq!(scaled_units(1_234_567_890, 6), 1_234);
    assert_eq!(scaled_units(1_234_567_890, 0), 1_234_567_890);
    assert_eq!(scaled_units(999_999, 6), 0);
    assert_eq!(scaled_units(1_000_000, 6), 1);
    assert_eq!(scaled_units(0, 18), 0);
}

#[test]
fn scaled_units_drop_the_remainder() {
    assert_eq!(scaled_units(1_999_999, 6), 1);
    assert_eq!(scaled_units(19, 1), 1);
}

#[test]
fn scaled_units_take_every_number_of_decimals() {
    assert_eq!(scaled_units(u128::MAX, 38), 3);
    assert_eq!(scaled_units(u128::MAX, 39), 0);
    assert_eq!(scaled_units(u128::MAX, 255), 0);
    assert_eq!(scaled_units(u128::MAX, u32::MAX), 0);
    assert_eq!(scaled_units(u128::MAX, 0), u128::MAX);
    assert_eq!(scaled_units(10u128.pow(19) * 7, 19), 7);
}

#[test]
fn scale_gives_a_whole_amount() {
    let scaled = scale(1_234_567_890_123, 6);
    assert_eq!(scaled.digits(), &vec![1u8, 2, 3, 4, 5, 6, 7]);
    assert_eq!(scaled.scale(), 0);
    assert_eq!(scaled, ScaledAmount::from_raw(1_234_567));
    assert_eq!(scaled.to_u128(), Some(1_234_567));
}

#[test]
fn scale_of_less_than_one_unit_is_zero() {
    let scaled = scale(999, 3);
    assert_eq!(scaled.digits(), &vec![0u8]);
    assert_eq!(scaled.to_u128(), Some(0));
}

#[test]
fn from_raw_holds_the_decimal_digits() {
    assert_eq!(ScaledAmount::from_raw(0).digits(), &vec![0u8]);
    assert_eq!(ScaledAmount::from_raw(9).digits(), &vec![9u8]);
    assert_eq!(ScaledAmount::from_raw(10).digits(), &vec![1u8, 0]);
    assert_eq!(ScaledAmount::from_raw(u128::MAX).digits().len(), 39);
    assert_eq!(ScaledAmount::from_raw(u128::MAX).to_u128(), Some(u128::MAX));
}

#[test]
fn new_refuses_what_is_no_digit() {
    assert!(ScaledAmount::new(vec![], 0).is_none());
    assert!(ScaledAmount::new(vec![1, 10], 0).is_none());
    assert!(ScaledAmount::new(vec![255], 0).is_none());
    assert!(ScaledAmount::new(vec![0, 0, 7], -3).is_some());
}

#[test]
fn clone_keeps_the_amount() {
    let one = amount(&[1, 2, 5], 1);
    assert_eq!(one.clone(), one);
}

#[test]
fn to_u128_drops_fractional_digits() {
    assert_eq!(amount(&[1, 2, 5], 1).to_u128(), Some(12));
    assert_eq!(amount(&[1, 2, 5], 3).to_u128(), Some(0));
    assert_eq!(amount(&[1, 2, 5], 4).to_u128(), Some(0));
    assert_eq!(amount(&[1, 2, 5], i64::MAX).to_u128(), Some(0));
    assert_eq!(amount(&[0, 0, 1, 2, 5], 0).to_u128(), Some(125));
}

#[test]
fn to_u128_multiplies_by_a_negative_scale() {
    assert_eq!(amount(&[1, 2, 5], -2).to_u128(), Some(12_500));
    assert_eq!(amount(&[0], -5).to_u128(), Some(0));
    assert_eq!(amount(&[0], i64::MIN).to_u128(), Some(0));
    assert_eq!(amount(&[1], -38).to_u128(), Some(10u128.pow(38)));
}

#[test]
fn to_u128_knows_its_limit() {
    assert_eq!(amount(&[1], -39).to_u128(), None);
    assert_eq!(amount(&[1], i64::MIN).to_u128(), None);
    let max = ScaledAmount::from_raw(u128::MAX).digits().clone();
    assert_eq!(ScaledAmount::new(max.clone(), 0).unwrap().to_u128(), Some(u128::MAX));
    let mut above = max.clone();
    let last = above.len() - 1;
    above[last] += 1;
    assert_eq!(ScaledAmount::new(above.clone(), 0).unwrap().to_u128(), None);
    assert_eq!(ScaledAmount::new(above, 1).unwrap().to_u128(), Some(u128::MAX / 10));
    let mut longer = max;
    longer.push(0);
    assert_eq!(ScaledAmount::new(longer, 0).unwrap().to_u128(), None);
}

#[test]
fn ratio_that_ends() {
    let ratio = current_ratio(500_000, 250_000).unwrap();
    assert_eq!(ratio.to_u128(), Some(2));
    assert_eq!(two_places(&ratio), "2.00");
    let half = current_ratio(1, 2).unwrap();
    assert_eq!(half.digits(), &vec![5u8]);
    assert_eq!(half.scale(), 1);
    assert_eq!(two_places(&half), "0.50");
}

#[test]
fn ratio_that_does_not_end() {
    let third = current_ratio(1, 3).unwrap();
    assert_eq!(third.digits(), &vec![3u8; 100]);
    assert_eq!(third.scale(), 100);
    assert_eq!(two_places(&third), "0.33");
    let two_thirds = current_ratio(2, 3).unwrap();
    assert_eq!(two_thirds.digits().len(), 100);
    assert_eq!(two_thirds.digits()[99], 7);
    assert_eq!(two_places(&two_thirds), "0.66");
}

#[test]
fn ratio_of_nothing_is_zero() {
    let ratio = current_ratio(0, 7).unwrap();
    assert_eq!(ratio.to_u128(), Some(0));
    assert_eq!(two_places(&ratio), "0.00");
}

#[test]
fn ratio_without_liabilities_does_not_exist() {
    assert!(current_ratio(1, 0).is_none());
    assert!(current_ratio(0, 0).is_none());
}

#[test]
fn ratio_is_what_bigdecimal_divides() {
    let pairs: [(u128, u128); 6] =
        [(1, 3), (22, 7), (u128::MAX, 3), (1, u128::MAX), (10, 4), (123_456_789, 1_000)];
    for (liquidity, liabilities) in pairs {
        let ratio = current_ratio(liquidity, liabilities).unwrap();
        let expected =
            BigDecimal::from(BigInt::from(liquidity)) / BigDecimal::from(BigInt::from(liabilities));
        let (unscaled, scale) = expected.as_bigint_and_exponent();
        assert_eq!(ratio.digits(), &unscaled.to_radix_be(10).1);
        assert_eq!(ratio.scale(), scale);
        assert_eq!(two_places(&ratio), expected.with_scale(2).to_string());
    }
}

#[test]
fn two_places_cut_and_never_round() {
    assert_eq!(two_places(&amount(&[1, 9, 9, 9], 3)), "1.99");
    assert_eq!(two_places(&amount(&[9, 9, 9], 3)), "0.99");
    assert_eq!(two_places(&amount(&[5], 3)), "0.00");
    assert_eq!(two_places(&amount(&[5], 2)), "0.05");
    assert_eq!(two_places(&amount(&[5], 1)), "0.50");
    assert_eq!(two_places(&amount(&[5], 0)), "5.00");
    assert_eq!(two_places(&amount(&[5], -2)), "500.00");
    assert_eq!(two_places(&amount(&[0], 0)), "0.00");
    assert_eq!(two_places(&amount(&[0, 0, 1, 2], 1)), "1.20");
    assert_eq!(two_places(&amount(&[1, 2, 3], i64::MAX)), "0.00");
}

#[test]
fn two_places_are_what_bigdecimal_prints() {
    let samples: [(&[u8], i64); 8] = [
        (&[1, 2, 3, 4, 5], 0),
        (&[1, 2, 3, 4, 5], 1),
        (&[1, 2, 3, 4, 5], 2),
        (&[1, 2, 3, 4, 5], 3),
        (&[1, 2, 3, 4, 5], 5),
        (&[1, 2, 3, 4, 5], 9),
        (&[1, 2, 3, 4, 5], -4),
        (&[0], 7),
    ];
    for (digits, scale) in samples {
        let unscaled = BigInt::from_radix_be(bigdecimal::num_bigint::Sign::Plus, digits, 10);
        let expected = BigDecimal::new(unscaled.unwrap(), scale).with_scale(2).to_string();
        assert_eq!(two_places(&amount(digits, scale)), expected);
    }
}

#[test]
fn prettify_groups_thousands() {
    assert_eq!(prettify(&ScaledAmount::from_raw(0)), "0");
    assert_eq!(prettify(&ScaledAmount::from_raw(999)), "999");
    assert_eq!(prettify(&ScaledAmount::from_raw(1_000)), "1,000");
    assert_eq!(prettify(&ScaledAmount::from_raw(1_234_567)), "1,234,567");
    assert_eq!(prettify(&ScaledAmount::from_raw(1_000_007)), "1,000,007");
    assert_eq!(
        prettify(&ScaledAmount::from_raw(u128::MAX)),
        "340,282,366,920,938,463,463,374,607,431,768,211,455"
    );
}

#[test]
fn prettify_prints_the_whole_part() {
    assert_eq!(prettify(&amount(&[1, 2, 3, 4, 5, 6, 7], 3)), "1,234");
    assert_eq!(prettify(&amount(&[1, 2], -2)), "1,200");
}

#[test]
fn try_prettify_refuses_what_does_not_fit() {
    assert_eq!(try_prettify(&amount(&[1], -39)), None);
    assert_eq!(try_prettify(&amount(&[1], -3)), Some(String::from("1,000")));
}

#[test]
fn scale_is_what_bigdecimal_divides_and_cuts() {
    let raws: [u128; 5] = [0, 999_999, 1_000_000, 1_234_567_890_123_456_789, u128::MAX];
    for raw in raws {
        for decimals in [0u32, 1, 6, 18] {
            let divisor = BigDecimal::from(10_i64.pow(decimals));
            let expected = (BigDecimal::from(BigInt::from(raw)) / divisor).with_scale(0);
            let (unscaled, exponent) = expected.as_bigint_and_exponent();
            let scaled = scale(raw, decimals);
            assert_eq!(scaled.digits(), &unscaled.to_radix_be(10).1);
            assert_eq!(scaled.scale(), exponent);
        }
    }
}
