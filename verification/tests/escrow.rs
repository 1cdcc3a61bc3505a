use paywow::address::{Address, Transfer};
use paywow::escrow::{EscrowError, EscrowManagerContract};

fn party(name: &str) -> Address {
    Address::from_str(name)
}

fn open(vault: &mut EscrowManagerContract, id: &str, amount: i128, locked_until: u64) -> Result<(), EscrowError> {
    vault.create_escrow(
        &party("payer"),
        id.to_string(),
        party("payer"),
        party("token"),
        amount,
        locked_until,
    )
}

#[test]
fn test_escrow_manager_initialization() {
    let owner = party("owner");

    let _vault = EscrowManagerContract::new(owner.clone());
    // Basic initialization test
    assert!(true);
}

#[test]
fn test_invalid_escrow_amount() {
    let owner = party("owner");
    let account_owner = party("account_owner");
    let asset = party("asset");

    let mut vault = EscrowManagerContract::new(owner);

    let result = vault.create_escrow(
        &account_owner,
        "tx123".to_string(),
        account_owner.clone(),
        asset,
        0, // Invalid amount
        100,
    );

    assert!(result.is_err());
}

#[test]
fn escrow_new_vault_is_empty() {
    let vault = EscrowManagerContract::new(party("owner"));
    assert_eq!(vault.get_owner(), party("owner"));
    assert_eq!(vault.get_escrow(&"e1".to_string()).err(), Some(EscrowError::EscrowNotFound));
    assert!(!vault.is_locked(&"e1".to_string(), 0));
}

#[test]
fn escrow_create_records_the_hold() {
    let mut vault = EscrowManagerContract::new(party("owner"));
    assert_eq!(open(&mut vault, "e1", 500, 100), Ok(()));
    let hold = vault.get_escrow(&"e1".to_string()).unwrap();
    assert_eq!(hold.owner, party("payer"));
    assert_eq!(hold.balance, 500);
    assert_eq!(hold.asset, party("token"));
    assert_eq!(hold.locked_until, 100);
    assert_eq!(hold.transaction_id, "e1");
}

#[test]
fn escrow_create_refusals() {
    let mut vault = EscrowManagerContract::new(party("owner"));
    assert_eq!(open(&mut vault, "e1", 0, 100), Err(EscrowError::InvalidAmount));
    assert_eq!(open(&mut vault, "e1", -7, 100), Err(EscrowError::InvalidAmount));
    assert_eq!(
        vault.create_escrow(&party("stranger"), "e1".to_string(), party("payer"), party("token"), 0, 100),
        Err(EscrowError::InvalidAmount)
    );
    assert_eq!(
        vault.create_escrow(&party("stranger"), "e1".to_string(), party("payer"), party("token"), 5, 100),
        Err(EscrowError::Unauthorized)
    );
    assert!(vault.get_escrow(&"e1".to_string()).is_err());
    assert_eq!(open(&mut vault, "e1", 500, 100), Ok(()));
    assert_eq!(open(&mut vault, "e1", 900, 7), Err(EscrowError::DuplicateId));
    assert_eq!(vault.get_escrow(&"e1".to_string()).unwrap().balance, 500);
    assert_eq!(vault.get_escrow(&"e1".to_string()).unwrap().locked_until, 100);
}

#[test]
fn escrow_is_locked_until_the_deadline() {
    let mut vault = EscrowManagerContract::new(party("owner"));
    open(&mut vault, "e1", 500, 100).unwrap();
    assert!(vault.is_locked(&"e1".to_string(), 0));
    assert!(vault.is_locked(&"e1".to_string(), 99));
    assert!(!vault.is_locked(&"e1".to_string(), 100));
    assert!(!vault.is_locked(&"e1".to_string(), 101));
    assert!(!vault.is_locked(&"other".to_string(), 0));
}

#[test]
fn escrow_release_waits_for_the_lock() {
    let mut vault = EscrowManagerContract::new(party("owner"));
    open(&mut vault, "e1", 500, 100).unwrap();
    assert_eq!(
        vault.release_escrow(&"e1".to_string(), party("payee"), 99),
        Err(EscrowError::FundsLocked)
    );
    assert_eq!(vault.get_escrow(&"e1".to_string()).unwrap().balance, 500);
    assert_eq!(
        vault.release_escrow(&"e1".to_string(), party("payee"), 100),
        Ok(Transfer { from: party("payer"), to: party("payee"), amount: 500 })
    );
    assert!(vault.get_escrow(&"e1".to_string()).is_err());
}

#[test]
fn escrow_release_of_unknown_id() {
    let mut vault = EscrowManagerContract::new(party("owner"));
    assert_eq!(
        vault.release_escrow(&"nope".to_string(), party("payee"), 1000),
        Err(EscrowError::EscrowNotFound)
    );
}

#[test]
fn escrow_release_is_final() {
    let mut vault = EscrowManagerContract::new(party("owner"));
    open(&mut vault, "e1", 500, 100).unwrap();
    open(&mut vault, "e2", 70, 0).unwrap();
    vault.release_escrow(&"e1".to_string(), party("payee"), 100).unwrap();
    for tick in [0u64, 100, 101, u64::MAX] {
        assert_eq!(
            vault.release_escrow(&"e1".to_string(), party("payee"), tick),
            Err(EscrowError::EscrowNotFound)
        );
    }
    assert_eq!(
        vault.refund_escrow(&party("payer"), &"e1".to_string()),
        Err(EscrowError::EscrowNotFound)
    );
    assert_eq!(
        vault.refund_escrow(&party("stranger"), &"e1".to_string()),
        Err(EscrowError::EscrowNotFound)
    );
    // the other hold is untouched
    assert_eq!(vault.get_escrow(&"e2".to_string()).unwrap().balance, 70);
}

#[test]
fn escrow_refund_goes_back_to_the_owner() {
    let mut vault = EscrowManagerContract::new(party("owner"));
    open(&mut vault, "e1", 500, 100).unwrap();
    assert_eq!(
        vault.refund_escrow(&party("stranger"), &"e1".to_string()),
        Err(EscrowError::Unauthorized)
    );
    assert_eq!(vault.get_escrow(&"e1".to_string()).unwrap().balance, 500);
    assert_eq!(
        vault.refund_escrow(&party("payer"), &"e1".to_string()),
        Ok(Transfer { from: party("payer"), to: party("payer"), amount: 500 })
    );
    assert_eq!(
        vault.refund_escrow(&party("payer"), &"e1".to_string()),
        Err(EscrowError::EscrowNotFound)
    );
    assert_eq!(
        vault.release_escrow(&"e1".to_string(), party("payee"), 1000),
        Err(EscrowError::EscrowNotFound)
    );
}

#[test]
fn escrow_id_is_free_again_after_release() {
    let mut vault = EscrowManagerContract::new(party("owner"));
    open(&mut vault, "e1", 500, 0).unwrap();
    vault.release_escrow(&"e1".to_string(), party("payee"), 0).unwrap();
    assert_eq!(open(&mut vault, "e1", 20, 5), Ok(()));
    assert_eq!(vault.get_escrow(&"e1".to_string()).unwrap().balance, 20);
}

#[test]
fn escrow_error_codes() {
    assert_eq!(EscrowError::Unauthorized.code(), 1);
    assert_eq!(EscrowError::EscrowNotFound.code(), 2);
    assert_eq!(EscrowError::InvalidAmount.code(), 3);
    assert_eq!(EscrowError::AssetNotSupported.code(), 4);
    assert_eq!(EscrowError::FundsLocked.code(), 5);
    assert_eq!(EscrowError::InsufficientFunds.code(), 6);
    assert_eq!(EscrowError::DuplicateId.code(), 7);
}
