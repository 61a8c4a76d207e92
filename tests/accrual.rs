use credit_engine::{
    calculate_interest, days_elapsed, divide, duration_in_days, interest_for_days, linear_interest,
    Error, SECONDS_IN_DAYS,
};

const UNIT: u128 = 1_000_000_000_000;
const DAY: u64 = 86_400_000;

#[test]
fn lease_duration_works() {
    assert_eq!(duration_in_days(SECONDS_IN_DAYS * 1 * 1000, 0), Ok(1));
    assert_eq!(
        duration_in_days(SECONDS_IN_DAYS * 3 * 1000, SECONDS_IN_DAYS * 1 * 1000),
        Ok(2)
    );
    assert_eq!(
        duration_in_days(SECONDS_IN_DAYS * 3 * 1000, (SECONDS_IN_DAYS + 1) * 1 * 1000),
        Ok(2)
    );
    assert_eq!(
        duration_in_days(SECONDS_IN_DAYS * 300 * 1000, SECONDS_IN_DAYS * 1 * 1000),
        Ok(299)
    );
    assert_eq!(
        duration_in_days((SECONDS_IN_DAYS + 1) * 1 * 1000, SECONDS_IN_DAYS * 1 * 1000),
        Ok(1)
    );
    assert_eq!(
        duration_in_days(
            SECONDS_IN_DAYS * 1000 * 1000,
            (SECONDS_IN_DAYS - 1) * 999 * 1000
        ),
        Ok(2)
    );
}

#[test]
fn lease_duration_rounding_scenarios() {
    assert_eq!(duration_in_days(86_400_000, 0), Ok(1));
    assert_eq!(duration_in_days(259_200_000, 86_400_000), Ok(2));
    assert_eq!(duration_in_days(86_401_000, 86_400_000), Ok(1));
}

#[test]
fn lease_duration_edges() {
    assert_eq!(duration_in_days(5_000, 5_000), Ok(0));
    // less than a second is no elapsed time
    assert_eq!(duration_in_days(999, 0), Ok(0));
    assert_eq!(duration_in_days(1_000, 0), Ok(1));
    // a quotient that rounds up to a whole day at three decimals
    assert_eq!(duration_in_days(86_399_000, 0), Ok(1));
    assert_eq!(duration_in_days(u64::MAX, 0), Ok(213_503_982_335));
    assert_eq!(duration_in_days(0, 1), Err(Error::ArithmeticOverflow));
}

#[test]
fn divide_rounds_half_up() {
    assert_eq!(divide(86_400, 86_400, 3), 1000);
    assert_eq!(divide(1, 3, 3), 333);
    assert_eq!(divide(2, 3, 3), 667);
    assert_eq!(divide(43_200, 86_400, 0), 1);
    assert_eq!(divide(0, 7, 5), 0);
}

#[test]
fn days_elapsed_counts_started_days() {
    assert_eq!(days_elapsed(DAY, 0), Ok(1));
    assert_eq!(days_elapsed(DAY + 1_000, 0), Ok(2));
    assert_eq!(days_elapsed(DAY + 999, 0), Ok(1));
    assert_eq!(days_elapsed(0, 0), Ok(0));
    assert_eq!(days_elapsed(0, 1), Err(Error::ArithmeticOverflow));
}

#[test]
fn interest_one_year_scenario() {
    let created_at = 86_400_000;
    let now = 86_400_000 + 365 * 86_400_000;
    assert_eq!(calculate_interest(UNIT, 10, now, created_at), Ok(105_155_781_613));
}

#[test]
fn interest_series_known_values() {
    let start = 86_400_000;
    assert_eq!(calculate_interest(UNIT, 10, start + 30 * DAY, start), Ok(8_251_913_257));
    assert_eq!(calculate_interest(UNIT, 10, start + 182 * DAY, start), Ok(51_119_918_056));
    assert_eq!(calculate_interest(UNIT, 7, start + 365 * DAY, start), Ok(72_505_096_314));
    assert_eq!(calculate_interest(UNIT, 7, 86_401_000, start), Ok(191_791_331));
    assert_eq!(calculate_interest(2 * UNIT, 7, 86_401_000, start), Ok(383_582_662));
    // a started day counts in full
    assert_eq!(
        calculate_interest(UNIT, 10, start + 364 * DAY + 1_000, start),
        Ok(105_155_781_613)
    );
    assert_eq!(calculate_interest(UNIT, 10, start + 364 * DAY, start), Ok(104_853_082_138));
}

#[test]
fn interest_for_days_direct() {
    assert_eq!(interest_for_days(UNIT, 10, 365), Ok(105_155_781_613));
    assert_eq!(interest_for_days(UNIT, 10, 1), Ok(273_972_602));
    assert_eq!(interest_for_days(UNIT, 10, 0), Ok(0));
    assert_eq!(interest_for_days(0, 10, 365), Ok(0));
}

#[test]
fn interest_zero_rate_accrues_nothing() {
    assert_eq!(interest_for_days(UNIT, 0, 365), Ok(0));
    assert_eq!(calculate_interest(UNIT, 0, 400 * DAY, 0), Ok(0));
}

#[test]
fn interest_refuses_rate_without_divisor() {
    assert_eq!(interest_for_days(UNIT, 36_501, 10), Err(Error::ArithmeticOverflow));
    // the largest rate with a divisor: q = 1
    assert_eq!(interest_for_days(100, 36_500, 2), Ok(300));
}

#[test]
fn interest_refuses_overflow() {
    assert_eq!(interest_for_days(u128::MAX, 10, 1), Err(Error::ArithmeticOverflow));
    assert_eq!(interest_for_days(UNIT, 10, u64::MAX), Err(Error::ArithmeticOverflow));
    assert_eq!(calculate_interest(UNIT, 10, 0, 1), Err(Error::ArithmeticOverflow));
    // every term fits, but the multiplier update after the last term does not
    assert_eq!(interest_for_days(1, 36_500, 70_000), Err(Error::ArithmeticOverflow));
    assert!(interest_for_days(1, 36_500, 50_000).is_ok());
}

#[test]
fn interest_is_deterministic_and_monotone_in_days() {
    let mut previous = 0u128;
    for days in [0u64, 1, 2, 7, 8, 30, 182, 365, 730, 3650] {
        let first = interest_for_days(UNIT, 10, days).unwrap();
        let second = interest_for_days(UNIT, 10, days).unwrap();
        assert_eq!(first, second);
        assert!(first >= previous);
        previous = first;
    }
}

#[test]
fn linear_interest_values() {
    assert_eq!(linear_interest(10, 10, 31_536_000, 31_536_000), Ok(100));
    assert_eq!(linear_interest(1_000, 7, 86_400_000, 31_536_000), Ok(19_178));
    assert_eq!(linear_interest(1_000, 7, 0, 31_536_000), Ok(0));
    assert_eq!(linear_interest(1_000, 7, 10, 0), Err(Error::ArithmeticOverflow));
    assert_eq!(
        linear_interest(u128::MAX, 2, 1, 1),
        Err(Error::ArithmeticOverflow)
    );
}
