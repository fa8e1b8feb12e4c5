use substrate_fixed::types::I64F64;
use terraswap_lbp::error::ContractError;
use terraswap_lbp::fixed_point::{FixedFloat, INTEGER_LIMIT, LEAST_EXPONENT_BITS, ONE_BITS};

fn num(n: u128) -> FixedFloat {
    FixedFloat::from_num(n).unwrap()
}

fn half() -> FixedFloat {
    FixedFloat::from_bits(ONE_BITS / 2)
}

#[test]
fn one_is_two_to_the_sixty_fourth() {
    assert_eq!(ONE_BITS, 1i128 << 64);
    assert_eq!(INTEGER_LIMIT, 1u128 << 63);
    assert_eq!(FixedFloat::one().to_bits(), ONE_BITS);
    assert_eq!(FixedFloat::zero().to_bits(), 0);
    assert_eq!(FixedFloat::from_bits(-7).to_bits(), -7);
}

#[test]
fn integers_become_fixed_point_numbers() {
    assert_eq!(FixedFloat::from_num(0), Ok(FixedFloat::zero()));
    assert_eq!(FixedFloat::from_num(1), Ok(FixedFloat::one()));
    assert_eq!(num(5).to_bits(), 5 * ONE_BITS);
    assert_eq!(num(5).to_bits(), I64F64::from_num(5u128).to_bits());
    assert_eq!(
        FixedFloat::from_num(INTEGER_LIMIT - 1).unwrap().to_bits(),
        I64F64::from_num(INTEGER_LIMIT - 1).to_bits()
    );
    assert_eq!(FixedFloat::from_num(INTEGER_LIMIT), Err(ContractError::Overflow));
    assert_eq!(FixedFloat::from_num(u128::MAX), Err(ContractError::Overflow));
}

#[test]
fn sums_and_differences_are_checked() {
    assert_eq!(num(2).checked_add(num(3)), Ok(num(5)));
    assert_eq!(num(2).checked_sub(num(3)).unwrap().to_bits(), -ONE_BITS);
    assert_eq!(
        FixedFloat::from_bits(i128::MAX).checked_add(FixedFloat::from_bits(1)),
        Err(ContractError::Overflow)
    );
    assert_eq!(
        FixedFloat::from_bits(i128::MIN).checked_sub(FixedFloat::from_bits(1)),
        Err(ContractError::Overflow)
    );
}

#[test]
fn products_are_rounded_down() {
    assert_eq!(num(3).checked_mul(half()).unwrap().to_bits(), ONE_BITS + ONE_BITS / 2);
    assert_eq!(num(6).checked_mul(num(7)), Ok(num(42)));
    // the smallest positive number times one half is rounded down to zero
    assert_eq!(FixedFloat::from_bits(1).checked_mul(half()).unwrap().to_bits(), 0);
    // and the smallest negative number times one half down to itself
    assert_eq!(FixedFloat::from_bits(-1).checked_mul(half()).unwrap().to_bits(), -1);
    assert_eq!(FixedFloat::from_bits(-3).checked_mul(half()).unwrap().to_bits(), -2);
    assert_eq!(num(1 << 62).checked_mul(num(2)), Err(ContractError::Overflow));
    let a = 0x1234_5678_9abc_def0_1234_5678i128;
    let b = 0x0fed_cba9_8765_4321i128;
    assert_eq!(
        FixedFloat::from_bits(a).checked_mul(FixedFloat::from_bits(b)).unwrap().to_bits(),
        (I64F64::from_bits(a) * I64F64::from_bits(b)).to_bits()
    );
}

#[test]
fn products_of_two_negative_numbers() {
    let minus = |n: u128| FixedFloat::from_bits(-num(n).to_bits());
    assert_eq!(minus(3).checked_mul(minus(2)), Ok(num(6)));
    assert_eq!(
        minus(3).checked_mul(FixedFloat::from_bits(-ONE_BITS / 2)).unwrap().to_bits(),
        ONE_BITS + ONE_BITS / 2
    );
    // the exact product of the two smallest negative numbers is rounded down to zero
    assert_eq!(FixedFloat::from_bits(-1).checked_mul(FixedFloat::from_bits(-1)), Ok(num(0)));
    // (2^64 + 1) * (2^127 - 2^64 + 1) / 2^64 = 2^127 - 2^63 + 2^-64
    assert_eq!(
        FixedFloat::from_bits(-(1i128 << 64) - 1)
            .checked_mul(FixedFloat::from_bits(i128::MIN + (1i128 << 64) - 1)),
        Ok(FixedFloat::from_bits(i128::MAX - (1i128 << 63) + 1))
    );
    assert_eq!(
        FixedFloat::from_bits(-(1i128 << 64) - 2)
            .checked_mul(FixedFloat::from_bits(i128::MIN + (1i128 << 64) - 1)),
        Ok(FixedFloat::from_bits(i128::MAX))
    );
    assert_eq!(
        FixedFloat::from_bits(-(1i128 << 64) - 3)
            .checked_mul(FixedFloat::from_bits(i128::MIN + (1i128 << 64) - 1)),
        Err(ContractError::Overflow)
    );
    assert_eq!(
        FixedFloat::from_bits(i128::MIN + 1).checked_mul(FixedFloat::from_bits(i128::MIN + 1)),
        Err(ContractError::Overflow)
    );
    assert_eq!(
        FixedFloat::from_bits(i128::MIN + 1).checked_mul(FixedFloat::from_bits(-1)),
        Ok(FixedFloat::from_bits((1i128 << 63) - 1))
    );
    // the least number, -2^63
    let least = FixedFloat::from_bits(i128::MIN);
    assert_eq!(least.checked_mul(FixedFloat::from_bits(-1)).unwrap().to_bits(), 1i128 << 63);
    assert_eq!(FixedFloat::from_bits(-1).checked_mul(least).unwrap().to_bits(), 1i128 << 63);
    assert_eq!(
        least.checked_mul(FixedFloat::from_bits(-ONE_BITS / 2)).unwrap().to_bits(),
        1i128 << 126
    );
    assert_eq!(
        least.checked_mul(FixedFloat::from_bits(-ONE_BITS + 1)).unwrap().to_bits(),
        (ONE_BITS - 1) << 63
    );
    assert_eq!(least.checked_mul(minus(1)), Err(ContractError::Overflow));
    assert_eq!(minus(1).checked_mul(least), Err(ContractError::Overflow));
    assert_eq!(least.checked_mul(least), Err(ContractError::Overflow));
    assert_eq!(least.checked_mul(num(1)), Ok(least));
    assert_eq!(least.checked_mul(num(2)), Err(ContractError::Overflow));
}

#[test]
fn quotients_are_rounded_towards_zero() {
    assert_eq!(num(3).checked_div(num(2)).unwrap().to_bits(), ONE_BITS + ONE_BITS / 2);
    assert_eq!(num(42).checked_div(num(7)), Ok(num(6)));
    assert_eq!(num(1).checked_div(num(3)).unwrap().to_bits(), ONE_BITS / 3);
    assert_eq!(
        FixedFloat::from_bits(-ONE_BITS).checked_div(num(3)).unwrap().to_bits(),
        -(ONE_BITS / 3)
    );
    assert_eq!(num(1).checked_div(FixedFloat::zero()), Err(ContractError::DomainError));
    assert_eq!(
        num(1 << 62).checked_div(FixedFloat::from_bits(1)),
        Err(ContractError::Overflow)
    );
}

#[test]
fn quotients_at_the_ends_of_the_range() {
    let least = FixedFloat::from_bits(i128::MIN);
    let greatest = FixedFloat::from_bits(i128::MAX);
    let minus_one = FixedFloat::from_bits(-ONE_BITS);
    assert_eq!(least.checked_div(least), Ok(num(1)));
    assert_eq!(least.checked_div(num(1)), Ok(least));
    assert_eq!(least.checked_div(minus_one), Err(ContractError::Overflow));
    assert_eq!(least.checked_div(FixedFloat::from_bits(-1)), Err(ContractError::Overflow));
    assert_eq!(least.checked_div(num(2)).unwrap().to_bits(), i128::MIN / 2);
    assert_eq!(greatest.checked_div(greatest), Ok(num(1)));
    assert_eq!(greatest.checked_div(minus_one).unwrap().to_bits(), -i128::MAX);
    assert_eq!(greatest.checked_div(FixedFloat::from_bits(1)), Err(ContractError::Overflow));
    assert_eq!(greatest.checked_div(least).unwrap().to_bits(), -(ONE_BITS - 1));
    assert_eq!(FixedFloat::from_bits(-1).checked_div(least).unwrap().to_bits(), 0);
    assert_eq!(FixedFloat::from_bits(1).checked_div(least).unwrap().to_bits(), 0);
    assert_eq!(FixedFloat::from_bits(-1).checked_div(greatest).unwrap().to_bits(), 0);
    assert_eq!(
        FixedFloat::from_bits(-(1i128 << 64) - 1)
            .checked_div(FixedFloat::from_bits(i128::MIN + (1i128 << 64) - 1))
            .unwrap()
            .to_bits(),
        2
    );
}

#[test]
fn powers_at_the_ends_of_the_range() {
    let greatest = FixedFloat::from_bits(i128::MAX);
    let smallest = FixedFloat::from_bits(1);
    for base in [greatest, smallest, num(1), num(2), half(), FixedFloat::from_bits(ONE_BITS - 1)] {
        for exponent in [
            greatest,
            smallest,
            FixedFloat::from_bits(-1),
            FixedFloat::from_bits(LEAST_EXPONENT_BITS),
            FixedFloat::from_bits(LEAST_EXPONENT_BITS + 1),
            FixedFloat::from_bits(LEAST_EXPONENT_BITS + (1i128 << 64) - 1),
            num(63),
            FixedFloat::from_bits(-63 * ONE_BITS),
        ] {
            match base.pow(exponent) {
                Ok(power) => assert!(power.to_bits() >= 0),
                Err(error) => assert_eq!(error, ContractError::Overflow),
            }
        }
    }
}

#[test]
fn powers_decided_without_a_logarithm() {
    assert_eq!(num(7).pow(FixedFloat::zero()), Ok(FixedFloat::one()));
    assert_eq!(num(7).pow(FixedFloat::one()), Ok(num(7)));
    assert_eq!(half().pow(FixedFloat::one()), Ok(half()));
}

#[test]
fn powers_by_logarithm_and_exponential() {
    let four = num(2).pow(num(2)).unwrap().to_bits();
    assert!((four - 4 * ONE_BITS).abs() < ONE_BITS / 1_000_000);
    assert_ne!(four, 2 * ONE_BITS);
    let eighth = half().pow(num(3)).unwrap().to_bits();
    assert!((eighth - ONE_BITS / 8).abs() < ONE_BITS / 1_000_000);
    let root = num(2).pow(half()).unwrap().to_bits();
    // the square root of two is 1.41421356...
    assert!((root - 26087635650665564424).abs() < ONE_BITS / 1_000_000);
    assert_eq!(num(1).pow(num(3)), Ok(FixedFloat::one()));
}

#[test]
fn powers_with_negative_exponents() {
    let minus_two = FixedFloat::from_bits(-2 * ONE_BITS);
    let quarter = num(2).pow(minus_two).unwrap().to_bits();
    assert!((quarter - ONE_BITS / 4).abs() < ONE_BITS / 1_000_000);
    let four = half().pow(minus_two).unwrap().to_bits();
    assert!((four - 4 * ONE_BITS).abs() < ONE_BITS / 1_000_000);
    assert_eq!(LEAST_EXPONENT_BITS, -(1i128 << 126));
    assert_eq!(
        half().pow(FixedFloat::from_bits(LEAST_EXPONENT_BITS - 1)),
        Err(ContractError::Overflow)
    );
    assert_eq!(half().pow(FixedFloat::from_bits(i128::MIN)), Err(ContractError::Overflow));
    assert_eq!(num(1).pow(FixedFloat::from_bits(i128::MIN)), Err(ContractError::Overflow));
    assert_eq!(
        half().pow(FixedFloat::from_bits(LEAST_EXPONENT_BITS)),
        Err(ContractError::Overflow)
    );
    assert_eq!(num(1).pow(FixedFloat::from_bits(LEAST_EXPONENT_BITS)), Ok(num(1)));
    let tenth = FixedFloat::from_ratio(1, 10).unwrap();
    assert_eq!(
        tenth.pow(FixedFloat::from_bits(LEAST_EXPONENT_BITS + (1i128 << 64) - 1)),
        Err(ContractError::Overflow)
    );
}

#[test]
fn powers_outside_the_domain() {
    assert_eq!(FixedFloat::zero().pow(num(2)), Err(ContractError::DomainError));
    assert_eq!(FixedFloat::from_bits(-ONE_BITS).pow(num(2)), Err(ContractError::DomainError));
    assert_eq!(FixedFloat::from_bits(-1).pow(FixedFloat::one()), Err(ContractError::DomainError));
    assert_eq!(num(1000).pow(num(30)), Err(ContractError::Overflow));
}

#[test]
fn rounding_to_token_amounts() {
    assert_eq!(num(9).floor(), Ok(9));
    assert_eq!(num(9).ceil(), Ok(9));
    assert_eq!(FixedFloat::from_bits(9 * ONE_BITS + 1).floor(), Ok(9));
    assert_eq!(FixedFloat::from_bits(9 * ONE_BITS + 1).ceil(), Ok(10));
    assert_eq!(FixedFloat::from_bits(10 * ONE_BITS - 1).floor(), Ok(9));
    assert_eq!(FixedFloat::from_bits(10 * ONE_BITS - 1).ceil(), Ok(10));
    assert_eq!(FixedFloat::zero().floor(), Ok(0));
    assert_eq!(FixedFloat::zero().ceil(), Ok(0));
    assert_eq!(FixedFloat::from_bits(-1).floor(), Err(ContractError::Overflow));
    assert_eq!(FixedFloat::from_bits(-1).ceil(), Ok(0));
    assert_eq!(FixedFloat::from_bits(-ONE_BITS + 1).ceil(), Ok(0));
    assert_eq!(FixedFloat::from_bits(-ONE_BITS).ceil(), Err(ContractError::Overflow));
    assert_eq!(FixedFloat::from_bits(i128::MAX).floor(), Ok((1u128 << 63) - 1));
    assert_eq!(FixedFloat::from_bits(i128::MAX).ceil(), Ok(1u128 << 63));
}
