use paywow::address::{Address, Transfer};
use paywow::processor::{PaymentError, PaymentProcessorContract};

fn party(name: &str) -> Address {
    Address::from_str(name)
}

fn transfer(from: &str, to: &str, amount: i128) -> Transfer {
    Transfer { from: party(from), to: party(to), amount }
}

#[test]
fn test_payment_processor_initialization() {
    let owner = party("owner");
    let token = party("token");

    let contract = PaymentProcessorContract::new(owner.clone(), token.clone(), 100).unwrap();

    assert_eq!(contract.get_platform_fee(), 100);
    assert_eq!(contract.get_payment_token(), token);
}

#[test]
fn test_invalid_fee_percentage() {
    let owner = party("owner");
    let token = party("token");

    let result = PaymentProcessorContract::new(owner.clone(), token.clone(), 10001);

    assert!(result.is_err());
}

#[test]
fn test_collected_fees() {
    let owner = party("owner");
    let token = party("token");

    let contract = PaymentProcessorContract::new(owner.clone(), token.clone(), 100).unwrap();

    assert_eq!(contract.get_collected_fees(), 0);
}

#[test]
fn processor_refuses_rate_above_full_with_its_error() {
    match PaymentProcessorContract::new(party("owner"), party("token"), 10001) {
        Err(e) => {
            assert_eq!(e, PaymentError::InvalidFeePercentage);
            assert_eq!(e.code(), 7);
        }
        Ok(_) => panic!("a rate above ten thousand was accepted"),
    }
    assert!(PaymentProcessorContract::new(party("owner"), party("token"), 10000).is_ok());
}

#[test]
fn processor_orders_three_transfers_and_collects_the_platform_fee() {
    let mut processor = PaymentProcessorContract::new(party("owner"), party("token"), 100).unwrap();
    let done = processor
        .process_payment(
            &party("payer"),
            party("payer"),
            party("payee"),
            1000,
            party("merchant"),
            200,
            "pay-1".to_string(),
        )
        .unwrap();
    assert_eq!(done.platform_fee, 10);
    assert_eq!(done.merchant_fee, 20);
    assert_eq!(done.amount, 1000);
    assert_eq!(done.from, party("payer"));
    assert_eq!(done.to, party("payee"));
    assert_eq!(done.payment_id, "pay-1");
    assert_eq!(
        done.transfers,
        vec![
            transfer("payer", "payee", 1000),
            transfer("payer", "owner", 10),
            transfer("payer", "merchant", 20),
        ]
    );
    assert_eq!(processor.get_collected_fees(), 10);
}

#[test]
fn processor_skips_a_merchant_fee_of_zero() {
    let mut processor = PaymentProcessorContract::new(party("owner"), party("token"), 100).unwrap();
    let done = processor
        .process_payment(
            &party("payer"),
            party("payer"),
            party("payee"),
            1000,
            party("merchant"),
            0,
            "pay-1".to_string(),
        )
        .unwrap();
    assert_eq!(
        done.transfers,
        vec![transfer("payer", "payee", 1000), transfer("payer", "owner", 10)]
    );
    assert_eq!(done.merchant_fee, 0);
}

#[test]
fn processor_refusals_change_nothing() {
    let mut processor = PaymentProcessorContract::new(party("owner"), party("token"), 100).unwrap();
    let pay = |p: &mut PaymentProcessorContract, caller: &str, amount: i128, bps: u32| {
        p.process_payment(
            &party(caller),
            party("payer"),
            party("payee"),
            amount,
            party("merchant"),
            bps,
            "p".to_string(),
        )
        .map(|_| ())
    };
    assert_eq!(pay(&mut processor, "payer", 0, 0), Err(PaymentError::InvalidAmount));
    assert_eq!(pay(&mut processor, "payer", -5, 0), Err(PaymentError::InvalidAmount));
    assert_eq!(pay(&mut processor, "stranger", 0, 0), Err(PaymentError::InvalidAmount));
    assert_eq!(pay(&mut processor, "stranger", 1000, 0), Err(PaymentError::Unauthorized));
    assert_eq!(pay(&mut processor, "payer", 1000, 9900), Err(PaymentError::FeeExceedsPayment));
    assert_eq!(processor.get_collected_fees(), 0);
    assert_eq!(pay(&mut processor, "payer", 1000, 9899), Ok(()));
    assert_eq!(processor.get_collected_fees(), 10);
}

#[test]
fn processor_refuses_a_fee_total_it_cannot_hold() {
    let mut processor = PaymentProcessorContract::new(party("owner"), party("token"), 9999).unwrap();
    let pay = |p: &mut PaymentProcessorContract| {
        p.process_payment(
            &party("payer"),
            party("payer"),
            party("payee"),
            i128::MAX,
            party("merchant"),
            0,
            "p".to_string(),
        )
        .map(|done| done.platform_fee)
    };
    let first = pay(&mut processor).unwrap();
    assert_eq!(processor.get_collected_fees(), first);
    assert_eq!(pay(&mut processor), Err(PaymentError::InvalidAmount));
    assert_eq!(processor.get_collected_fees(), first);
}

#[test]
fn processor_withdrawal() {
    let mut processor = PaymentProcessorContract::new(party("owner"), party("token"), 100).unwrap();
    processor
        .process_payment(
            &party("payer"),
            party("payer"),
            party("payee"),
            1000,
            party("merchant"),
            0,
            "pay-1".to_string(),
        )
        .unwrap();
    assert_eq!(processor.withdraw_fees(&party("payer"), 5), Err(PaymentError::Unauthorized));
    assert_eq!(processor.withdraw_fees(&party("owner"), 11), Err(PaymentError::InvalidAmount));
    assert_eq!(processor.withdraw_fees(&party("owner"), 0), Err(PaymentError::InvalidAmount));
    assert_eq!(processor.withdraw_fees(&party("owner"), -1), Err(PaymentError::InvalidAmount));
    assert_eq!(processor.get_collected_fees(), 10);
    assert_eq!(processor.withdraw_fees(&party("owner"), 4), Ok(transfer("owner", "owner", 4)));
    assert_eq!(processor.get_collected_fees(), 6);
    assert_eq!(processor.withdraw_fees(&party("owner"), 6), Ok(transfer("owner", "owner", 6)));
    assert_eq!(processor.get_collected_fees(), 0);
    assert_eq!(processor.get_owner(), party("owner"));
}

#[test]
fn payment_error_codes() {
    assert_eq!(PaymentError::Unauthorized.code(), 1);
    assert_eq!(PaymentError::InvalidAmount.code(), 2);
    assert_eq!(PaymentError::TokenNotSupported.code(), 3);
    assert_eq!(PaymentError::FeeExceedsPayment.code(), 4);
    assert_eq!(PaymentError::InsufficientBalance.code(), 5);
    assert_eq!(PaymentError::TransferFailed.code(), 6);
    assert_eq!(PaymentError::InvalidFeePercentage.code(), 7);
}
