use paywow::address::{Address, Transfer};
use paywow::dispute::{DisputeError, DisputeResolverContract, DisputeStatus};
use paywow::escrow::{EscrowError, EscrowManagerContract};
use paywow::loyalty::LoyaltyProgramContract;
use paywow::orchestrator::{
    Award, Failure, OrchestratorError, PaymentOrchestratorContract, TransactionKind,
    TransactionStatus,
};
use paywow::processor::{PaymentError, PaymentProcessorContract};

fn party(name: &str) -> Address {
    Address::from_str(name)
}

fn orchestrator() -> PaymentOrchestratorContract {
    PaymentOrchestratorContract::new(
        party("platform"),
        party("processor"),
        party("escrow"),
        party("dispute"),
        party("loyalty"),
        party("token"),
    )
}

#[test]
fn test_orchestrator_initialization() {
    let owner = party("owner");
    let processor = party("processor");
    let escrow = party("escrow");
    let dispute = party("dispute");
    let loyalty = party("loyalty");
    let token = party("token");

    let orchestrator = PaymentOrchestratorContract::new(
        owner.clone(),
        processor.clone(),
        escrow.clone(),
        dispute.clone(),
        loyalty.clone(),
        token.clone(),
    );

    let config = orchestrator.get_config();
    assert_eq!(config.0, processor);
    assert_eq!(config.1, escrow);
    assert_eq!(config.2, dispute);
    assert_eq!(config.3, loyalty);
    assert_eq!(config.4, token);
}

#[test]
fn test_loyalty_points_calculation() {
    // 100 units = 1 point
    assert_eq!(PaymentOrchestratorContract::calculate_loyalty_points(100), 1);
    // 1000 units = 10 points
    assert_eq!(PaymentOrchestratorContract::calculate_loyalty_points(1000), 10);
}

#[test]
fn test_invalid_amount() {
    let mut orchestrator = orchestrator();
    let mut processor = PaymentProcessorContract::new(party("platform"), party("token"), 100).unwrap();
    let mut loyalty = LoyaltyProgramContract::new(party("platform"));

    let payer = party("payer");
    let payee = party("payee");
    let merchant = party("merchant");

    let result = orchestrator.process_simple_payment(
        &mut processor,
        &mut loyalty,
        &payer,
        "tx1".to_string(),
        payer.clone(),
        payee,
        0, // Invalid amount
        merchant,
        100,
        0,
    );

    assert!(result.is_err());
}

#[test]
fn orchestrator_getters() {
    let orchestrator = orchestrator();
    assert_eq!(orchestrator.get_owner(), party("platform"));
    assert_eq!(orchestrator.get_payment_processor(), party("processor"));
    assert_eq!(orchestrator.get_escrow_manager(), party("escrow"));
    assert_eq!(orchestrator.get_dispute_resolver(), party("dispute"));
    assert_eq!(orchestrator.get_loyalty_program(), party("loyalty"));
    assert_eq!(orchestrator.get_payment_token(), party("token"));
    assert_eq!(
        orchestrator.get_transaction(&"t1".to_string()).err(),
        Some(OrchestratorError::TransactionNotFound)
    );
}

#[test]
fn loyalty_points_round_toward_zero_and_keep_the_low_bits() {
    let points = PaymentOrchestratorContract::calculate_loyalty_points;
    assert_eq!(points(0), 0);
    assert_eq!(points(99), 0);
    assert_eq!(points(199), 1);
    assert_eq!(points(429496729599), u32::MAX);
    assert_eq!(points(429496729600), 0);
    assert_eq!(points(429496729700), 1);
    assert_eq!(points(-99), 0);
    assert_eq!(points(-100), u32::MAX);
    assert_eq!(points(-150), u32::MAX);
    assert_eq!(points(i128::MAX), ((i128::MAX / 100) % 4294967296) as u32);
}

#[test]
fn simple_payment_with_non_positive_amount_creates_nothing() {
    let mut orchestrator = orchestrator();
    let mut processor = PaymentProcessorContract::new(party("platform"), party("token"), 100).unwrap();
    let mut loyalty = LoyaltyProgramContract::new(party("platform"));
    for (caller, amount) in [("payer", 0i128), ("payer", -1), ("stranger", 0), ("payer", i128::MIN)] {
        let result = orchestrator.process_simple_payment(
            &mut processor,
            &mut loyalty,
            &party(caller),
            "tx1".to_string(),
            party("payer"),
            party("payee"),
            amount,
            party("merchant"),
            100,
            0,
        );
        assert_eq!(result.err(), Some(Failure::Orchestrator(OrchestratorError::InvalidAmount)));
    }
    assert!(orchestrator.get_transaction(&"tx1".to_string()).is_err());
    assert_eq!(processor.get_collected_fees(), 0);
    assert_eq!(loyalty.get_total_rewards(), 0);
    assert_eq!(loyalty.get_customer_points(&party("payer")), 0);
}

#[test]
fn escrow_payment_with_non_positive_amount_creates_nothing() {
    let mut orchestrator = orchestrator();
    let mut vault = EscrowManagerContract::new(party("platform"));
    let mut loyalty = LoyaltyProgramContract::new(party("platform"));
    for (caller, amount) in [("payer", 0i128), ("payer", -1), ("stranger", -5)] {
        let result = orchestrator.process_escrow_payment(
            &mut vault,
            &mut loyalty,
            &party(caller),
            "e1".to_string(),
            party("payer"),
            party("payee"),
            amount,
            100,
            50,
        );
        assert_eq!(result.err(), Some(Failure::Orchestrator(OrchestratorError::InvalidAmount)));
    }
    assert!(orchestrator.get_transaction(&"e1".to_string()).is_err());
    assert!(vault.get_escrow(&"e1".to_string()).is_err());
    assert_eq!(loyalty.get_total_rewards(), 0);
}

#[test]
fn simple_payment_failures_change_nothing() {
    let mut orchestrator = orchestrator();
    let mut processor = PaymentProcessorContract::new(party("platform"), party("token"), 100).unwrap();
    let mut loyalty = LoyaltyProgramContract::new(party("platform"));
    let mut pay = |o: &mut PaymentOrchestratorContract,
                   p: &mut PaymentProcessorContract,
                   l: &mut LoyaltyProgramContract,
                   caller: &str,
                   id: &str,
                   bps: u32| {
        o.process_simple_payment(
            p,
            l,
            &party(caller),
            id.to_string(),
            party("payer"),
            party("payee"),
            1000,
            party("merchant"),
            bps,
            5,
        )
        .map(|_| ())
    };
    assert_eq!(
        pay(&mut orchestrator, &mut processor, &mut loyalty, "stranger", "t1", 200),
        Err(Failure::Orchestrator(OrchestratorError::Unauthorized))
    );
    assert_eq!(
        pay(&mut orchestrator, &mut processor, &mut loyalty, "payer", "t1", 9900),
        Err(Failure::Payment(PaymentError::FeeExceedsPayment))
    );
    assert!(orchestrator.get_transaction(&"t1".to_string()).is_err());
    assert_eq!(processor.get_collected_fees(), 0);
    assert_eq!(loyalty.get_total_rewards(), 0);

    assert_eq!(pay(&mut orchestrator, &mut processor, &mut loyalty, "payer", "t1", 200), Ok(()));
    assert_eq!(
        pay(&mut orchestrator, &mut processor, &mut loyalty, "payer", "t1", 200),
        Err(Failure::Orchestrator(OrchestratorError::DuplicateId))
    );
    assert_eq!(processor.get_collected_fees(), 10);
    assert_eq!(loyalty.get_total_rewards(), 1);
    assert_eq!(loyalty.get_customer_points(&party("payer")), 10);
}

#[test]
fn payment_stands_where_the_loyalty_program_refuses() {
    let mut orchestrator = orchestrator();
    let mut processor = PaymentProcessorContract::new(party("platform"), party("token"), 100).unwrap();
    // below one hundred no point is earned
    let mut loyalty = LoyaltyProgramContract::new(party("platform"));
    let (payment, award) = orchestrator
        .process_simple_payment(
            &mut processor,
            &mut loyalty,
            &party("payer"),
            "small".to_string(),
            party("payer"),
            party("payee"),
            99,
            party("merchant"),
            0,
            5,
        )
        .unwrap();
    assert_eq!(award, Award { points: 0, reward: None });
    assert_eq!(payment.transfers.len(), 2);
    assert_eq!(loyalty.get_total_rewards(), 0);
    assert_eq!(
        orchestrator.get_transaction(&"small".to_string()).unwrap().status,
        TransactionStatus::Completed
    );

    // a program under another administrator takes no award from this orchestrator
    let mut foreign = LoyaltyProgramContract::new(party("someone else"));
    let (_, award) = orchestrator
        .process_simple_payment(
            &mut processor,
            &mut foreign,
            &party("payer"),
            "large".to_string(),
            party("payer"),
            party("payee"),
            1000,
            party("merchant"),
            0,
            6,
        )
        .unwrap();
    assert_eq!(award, Award { points: 10, reward: None });
    assert_eq!(foreign.get_total_rewards(), 0);
    assert_eq!(foreign.get_customer_points(&party("payer")), 0);
    assert!(orchestrator.get_transaction(&"large".to_string()).is_ok());
}

#[test]
fn escrow_payment_logs_the_hold() {
    let mut orchestrator = orchestrator();
    let mut vault = EscrowManagerContract::new(party("platform"));
    let mut loyalty = LoyaltyProgramContract::new(party("platform"));
    let award = orchestrator
        .process_escrow_payment(
            &mut vault,
            &mut loyalty,
            &party("payer"),
            "e1".to_string(),
            party("payer"),
            party("payee"),
            500,
            100,
            50,
        )
        .unwrap();
    assert_eq!(award, Award { points: 5, reward: Some(1) });
    let entry = orchestrator.get_transaction(&"e1".to_string()).unwrap();
    assert_eq!(entry.transaction_id, "e1");
    assert_eq!(entry.payer, party("payer"));
    assert_eq!(entry.payee, party("payee"));
    assert_eq!(entry.amount, 500);
    assert_eq!(entry.status, TransactionStatus::EscrowHeld);
    assert_eq!(entry.transaction_type, TransactionKind::Escrow);
    assert_eq!(entry.created_at, 50);
    let hold = vault.get_escrow(&"e1".to_string()).unwrap();
    assert_eq!(hold.owner, party("payer"));
    assert_eq!(hold.asset, party("token"));
    assert_eq!(hold.balance, 500);
    assert_eq!(hold.locked_until, 100);
}

#[test]
fn escrow_payment_failures_change_nothing() {
    let mut orchestrator = orchestrator();
    let mut vault = EscrowManagerContract::new(party("platform"));
    let mut loyalty = LoyaltyProgramContract::new(party("platform"));
    // the id is taken in the vault though new to the log
    vault
        .create_escrow(&party("other"), "e1".to_string(), party("other"), party("token"), 9, 0)
        .unwrap();
    let result = orchestrator.process_escrow_payment(
        &mut vault,
        &mut loyalty,
        &party("payer"),
        "e1".to_string(),
        party("payer"),
        party("payee"),
        500,
        100,
        50,
    );
    assert_eq!(result.err(), Some(Failure::Escrow(EscrowError::DuplicateId)));
    let result = orchestrator.process_escrow_payment(
        &mut vault,
        &mut loyalty,
        &party("stranger"),
        "e2".to_string(),
        party("payer"),
        party("payee"),
        500,
        100,
        50,
    );
    assert_eq!(result.err(), Some(Failure::Orchestrator(OrchestratorError::Unauthorized)));
    assert!(orchestrator.get_transaction(&"e1".to_string()).is_err());
    assert!(orchestrator.get_transaction(&"e2".to_string()).is_err());
    assert_eq!(vault.get_escrow(&"e1".to_string()).unwrap().balance, 9);
    assert!(vault.get_escrow(&"e2".to_string()).is_err());
    assert_eq!(loyalty.get_total_rewards(), 0);
}

#[test]
fn release_needs_a_hold_and_a_logged_transaction() {
    let mut orchestrator = orchestrator();
    let mut vault = EscrowManagerContract::new(party("platform"));
    assert_eq!(
        orchestrator.release_escrow(&mut vault, &"e1".to_string(), party("payee"), 0).err(),
        Some(Failure::Escrow(EscrowError::EscrowNotFound))
    );
    // a hold the log does not know
    vault
        .create_escrow(&party("other"), "e1".to_string(), party("other"), party("token"), 9, 10)
        .unwrap();
    assert_eq!(
        orchestrator.release_escrow(&mut vault, &"e1".to_string(), party("payee"), 9).err(),
        Some(Failure::Escrow(EscrowError::FundsLocked))
    );
    assert_eq!(
        orchestrator.release_escrow(&mut vault, &"e1".to_string(), party("payee"), 10).err(),
        Some(Failure::Orchestrator(OrchestratorError::TransactionNotFound))
    );
    assert_eq!(vault.get_escrow(&"e1".to_string()).unwrap().balance, 9);
}

#[test]
fn dispute_uses_the_logged_amount() {
    let mut orchestrator = orchestrator();
    let mut processor = PaymentProcessorContract::new(party("platform"), party("token"), 100).unwrap();
    let mut loyalty = LoyaltyProgramContract::new(party("platform"));
    let mut registry = DisputeResolverContract::new(party("platform"), 1000);
    orchestrator
        .process_simple_payment(
            &mut processor,
            &mut loyalty,
            &party("payer"),
            "t1".to_string(),
            party("payer"),
            party("payee"),
            1000,
            party("merchant"),
            200,
            100,
        )
        .unwrap();
    let deadline = orchestrator
        .file_dispute(
            &mut registry,
            &party("payer"),
            "t1".to_string(),
            party("payer"),
            party("payee"),
            "not delivered".to_string(),
            "photo".to_string(),
            200,
        )
        .unwrap();
    assert_eq!(deadline, 1200);
    let dispute = registry.get_dispute(&"t1".to_string()).unwrap();
    assert_eq!(dispute.amount, 1000);
    assert_eq!(dispute.claimant, party("payer"));
    assert_eq!(dispute.respondent, party("payee"));
    assert_eq!(dispute.reason, "not delivered");
    assert_eq!(dispute.evidence, "photo");
    assert_eq!(dispute.status, DisputeStatus::Filed);
    let entry = orchestrator.get_transaction(&"t1".to_string()).unwrap();
    assert_eq!(entry.status, TransactionStatus::Disputed);
    assert_eq!(entry.amount, 1000);
    assert_eq!(entry.transaction_type, TransactionKind::Simple);
}

#[test]
fn dispute_failures_change_nothing() {
    let mut orchestrator = orchestrator();
    let mut processor = PaymentProcessorContract::new(party("platform"), party("token"), 100).unwrap();
    let mut loyalty = LoyaltyProgramContract::new(party("platform"));
    let mut registry = DisputeResolverContract::new(party("platform"), 1000);
    let mut dispute = |o: &mut PaymentOrchestratorContract,
                       r: &mut DisputeResolverContract,
                       caller: &str,
                       id: &str,
                       now: u64| {
        o.file_dispute(
            r,
            &party(caller),
            id.to_string(),
            party("payer"),
            party("payee"),
            "reason".to_string(),
            "evidence".to_string(),
            now,
        )
    };
    assert_eq!(
        dispute(&mut orchestrator, &mut registry, "payer", "t1", 200),
        Err(Failure::Orchestrator(OrchestratorError::TransactionNotFound))
    );
    orchestrator
        .process_simple_payment(
            &mut processor,
            &mut loyalty,
            &party("payer"),
            "t1".to_string(),
            party("payer"),
            party("payee"),
            1000,
            party("merchant"),
            200,
            100,
        )
        .unwrap();
    assert_eq!(
        dispute(&mut orchestrator, &mut registry, "stranger", "t1", 200),
        Err(Failure::Orchestrator(OrchestratorError::Unauthorized))
    );
    assert_eq!(
        dispute(&mut orchestrator, &mut registry, "payer", "t1", u64::MAX),
        Err(Failure::Dispute(DisputeError::InvalidAmount))
    );
    assert!(registry.get_dispute(&"t1".to_string()).is_err());
    assert_eq!(
        orchestrator.get_transaction(&"t1".to_string()).unwrap().status,
        TransactionStatus::Completed
    );
    assert_eq!(dispute(&mut orchestrator, &mut registry, "payer", "t1", 200), Ok(1200));
    assert_eq!(
        dispute(&mut orchestrator, &mut registry, "payer", "t1", 300),
        Err(Failure::Dispute(DisputeError::DuplicateId))
    );
    assert_eq!(registry.get_dispute(&"t1".to_string()).unwrap().filed_at, 200);
}

#[test]
fn orchestrator_codes() {
    assert_eq!(OrchestratorError::Unauthorized.code(), 1);
    assert_eq!(OrchestratorError::InvalidAmount.code(), 2);
    assert_eq!(OrchestratorError::ContractNotSet.code(), 3);
    assert_eq!(OrchestratorError::RefuseTransfer.code(), 4);
    assert_eq!(OrchestratorError::TransactionFailed.code(), 5);
    assert_eq!(OrchestratorError::InvalidTransactionType.code(), 6);
    assert_eq!(OrchestratorError::TransactionNotFound.code(), 7);
    assert_eq!(OrchestratorError::DuplicateId.code(), 8);
    assert_eq!(TransactionStatus::Pending.code(), 0);
    assert_eq!(TransactionStatus::Completed.code(), 1);
    assert_eq!(TransactionStatus::EscrowHeld.code(), 2);
    assert_eq!(TransactionStatus::Disputed.code(), 3);
    assert_eq!(TransactionStatus::Refunded.code(), 4);
    assert_eq!(TransactionKind::Simple.code(), 0);
    assert_eq!(TransactionKind::Escrow.code(), 1);
    assert_eq!(TransactionKind::Conditional.code(), 2);
    let _ = Transfer { from: party("a"), to: party("b"), amount: 1 };
}
