use paywow::fees::{compute_fees, FeeError, BPS_DENOMINATOR};

#[test]
fn fees_round_down() {
    assert_eq!(compute_fees(1000, 100, 200), Ok((10, 20)));
    assert_eq!(compute_fees(999, 100, 200), Ok((9, 19)));
    assert_eq!(compute_fees(199, 50, 0), Ok((0, 0)));
    assert_eq!(compute_fees(1, 9999, 0), Ok((0, 0)));
}

#[test]
fn fees_refuse_non_positive_principal() {
    assert_eq!(compute_fees(0, 100, 200), Err(FeeError::InvalidAmount));
    assert_eq!(compute_fees(-1, 0, 0), Err(FeeError::InvalidAmount));
    assert_eq!(compute_fees(i128::MIN, 100, 200), Err(FeeError::InvalidAmount));
}

#[test]
fn fees_refuse_when_they_reach_the_principal() {
    assert_eq!(compute_fees(1000, 5000, 5000), Err(FeeError::FeeExceedsPrincipal));
    assert_eq!(compute_fees(1000, 10000, 0), Err(FeeError::FeeExceedsPrincipal));
    assert_eq!(compute_fees(1000, 0, 10000), Err(FeeError::FeeExceedsPrincipal));
    assert_eq!(compute_fees(1000, 0, u32::MAX), Err(FeeError::FeeExceedsPrincipal));
    assert_eq!(compute_fees(1000, 6000, 4001), Err(FeeError::FeeExceedsPrincipal));
}

#[test]
fn fees_just_below_the_principal_pass() {
    // 3 * 3333 / 10000 = 0 and 3 * 6666 / 10000 = 1
    assert_eq!(compute_fees(3, 3333, 6666), Ok((0, 1)));
    assert_eq!(compute_fees(10000, 5000, 4999), Ok((5000, 4999)));
}

#[test]
fn fees_are_exact_for_the_largest_principal() {
    let amount = i128::MAX;
    let expected_platform = (amount / 10000) * 100 + (amount % 10000) * 100 / 10000;
    let expected_merchant = (amount / 10000) * 250 + (amount % 10000) * 250 / 10000;
    assert_eq!(compute_fees(amount, 100, 250), Ok((expected_platform, expected_merchant)));
    assert_eq!(expected_platform, 1701411834604692317316873037158841057);
}

#[test]
fn fees_stay_below_principal_when_rates_stay_below_full() {
    let amounts: [i128; 7] = [1, 2, 99, 100, 10001, 123456789, i128::MAX];
    let rates: [(u32, u32); 6] = [(0, 0), (0, 9999), (9999, 0), (5000, 4999), (1, 1), (100, 200)];
    for a in amounts {
        for (p, m) in rates {
            match compute_fees(a, p, m) {
                Ok((pf, mf)) => {
                    assert!(pf >= 0);
                    assert!(mf >= 0);
                    assert!(pf + mf < a);
                }
                Err(e) => panic!("refused {} at {} and {}: {:?}", a, p, m, e),
            }
        }
    }
}

#[test]
fn fees_at_a_single_rate() {
    assert_eq!(BPS_DENOMINATOR, 10000);
    assert_eq!(compute_fees(1000, 100, 0), Ok((10, 0)));
    assert_eq!(compute_fees(12345, 0, 9999), Ok((0, 12343)));
    assert_eq!(compute_fees(9999, 1, 0), Ok((0, 0)));
    assert_eq!(compute_fees(10000, 1, 0), Ok((1, 0)));
    assert_eq!(compute_fees(10000, 0, 1), Ok((0, 1)));
}
