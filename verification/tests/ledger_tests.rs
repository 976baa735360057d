use escrow::errors::EscrowError;
use escrow::ledger::Ledger;
use escrow::state::{AccountId, TokenAccount};

fn id(b: u8) -> AccountId {
    AccountId::new([b; 32])
}

#[test]
fn settle_scenario() {
    let maker = id(1);
    let taker = id(2);
    let mint_a = id(10);
    let mint_b = id(11);
    let mut ledger = Ledger::new();
    let mut maker_ata_a = TokenAccount::new(maker, mint_a, 1_000);
    let mut maker_ata_b = TokenAccount::new(maker, mint_b, 0);
    let mut taker_ata_a = TokenAccount::new(taker, mint_a, 0);
    let mut taker_ata_b = TokenAccount::new(taker, mint_b, 800);

    assert_eq!(ledger.make(1, 1_000, 500, maker, mint_a, mint_b, &mut maker_ata_a), Ok(()));
    assert_eq!(maker_ata_a.balance(), 0);
    assert_eq!(ledger.vault_balance(&maker, 1), Some(1_000));
    assert_eq!(ledger.receive_of(&maker, 1), Some(500));

    assert_eq!(
        ledger.transfer(1, taker, maker, &mut taker_ata_a, &mut taker_ata_b, &mut maker_ata_b),
        Ok(())
    );
    assert_eq!(maker_ata_b.balance(), 500);
    assert_eq!(taker_ata_a.balance(), 1_000);
    assert_eq!(taker_ata_b.balance(), 300);
    assert!(!ledger.has_record(&maker, 1));
    assert_eq!(ledger.open_count(), 0);

    assert_eq!(ledger.refund(1, maker, &mut maker_ata_a), Err(EscrowError::RecordNotFound));
    assert_eq!(maker_ata_a.balance(), 0);
}

#[test]
fn create_then_cancel_returns_deposit() {
    let maker = id(3);
    let mint_a = id(10);
    let mint_b = id(11);
    let mut ledger = Ledger::new();
    let mut maker_ata_a = TokenAccount::new(maker, mint_a, 5_000);

    assert_eq!(ledger.make(7, 1_234, 99, maker, mint_a, mint_b, &mut maker_ata_a), Ok(()));
    assert_eq!(maker_ata_a.balance(), 5_000 - 1_234);
    assert_eq!(ledger.open_count(), 1);

    assert_eq!(ledger.refund(7, maker, &mut maker_ata_a), Ok(()));
    assert_eq!(maker_ata_a.balance(), 5_000);
    assert_eq!(ledger.open_count(), 0);
    assert_eq!(ledger.vault_balance(&maker, 7), None);
}

#[test]
fn zero_amounts_are_rejected() {
    let maker = id(4);
    let mint_a = id(10);
    let mint_b = id(11);
    let mut ledger = Ledger::new();
    let mut maker_ata_a = TokenAccount::new(maker, mint_a, 5_000);

    assert_eq!(
        ledger.make(1, 0, 500, maker, mint_a, mint_b, &mut maker_ata_a),
        Err(EscrowError::InvalidAmount)
    );
    assert_eq!(
        ledger.make(1, 500, 0, maker, mint_a, mint_b, &mut maker_ata_a),
        Err(EscrowError::InvalidAmount)
    );
    assert_eq!(maker_ata_a.balance(), 5_000);
    assert_eq!(ledger.open_count(), 0);
}

#[test]
fn settle_needs_taker_balance() {
    let maker = id(5);
    let taker = id(6);
    let mint_a = id(10);
    let mint_b = id(11);
    let mut ledger = Ledger::new();
    let mut maker_ata_a = TokenAccount::new(maker, mint_a, 1_000);
    let mut maker_ata_b = TokenAccount::new(maker, mint_b, 0);
    let mut taker_ata_a = TokenAccount::new(taker, mint_a, 0);
    let mut taker_ata_b = TokenAccount::new(taker, mint_b, 499);

    assert_eq!(ledger.make(1, 1_000, 500, maker, mint_a, mint_b, &mut maker_ata_a), Ok(()));
    assert_eq!(
        ledger.transfer(1, taker, maker, &mut taker_ata_a, &mut taker_ata_b, &mut maker_ata_b),
        Err(EscrowError::InsufficientBalance)
    );
    assert_eq!(taker_ata_b.balance(), 499);
    assert_eq!(maker_ata_b.balance(), 0);
    assert_eq!(ledger.vault_balance(&maker, 1), Some(1_000));

    taker_ata_b = TokenAccount::new(taker, mint_b, 500);
    assert_eq!(
        ledger.transfer(1, taker, maker, &mut taker_ata_a, &mut taker_ata_b, &mut maker_ata_b),
        Ok(())
    );
    assert_eq!(taker_ata_b.balance(), 0);
    assert_eq!(maker_ata_b.balance(), 500);
    assert_eq!(taker_ata_a.balance(), 1_000);
}

#[test]
fn closed_record_cannot_be_acted_on_twice() {
    let maker = id(7);
    let mint_a = id(10);
    let mint_b = id(11);
    let mut ledger = Ledger::new();
    let mut maker_ata_a = TokenAccount::new(maker, mint_a, 1_000);

    assert_eq!(ledger.make(3, 600, 200, maker, mint_a, mint_b, &mut maker_ata_a), Ok(()));
    assert_eq!(ledger.refund(3, maker, &mut maker_ata_a), Ok(()));
    assert_eq!(maker_ata_a.balance(), 1_000);

    assert_eq!(ledger.refund(3, maker, &mut maker_ata_a), Err(EscrowError::RecordNotFound));
    assert_eq!(maker_ata_a.balance(), 1_000);
    let taker = id(8);
    let mut taker_ata_a = TokenAccount::new(taker, mint_a, 0);
    let mut taker_ata_b = TokenAccount::new(taker, mint_b, 1_000);
    let mut maker_ata_b = TokenAccount::new(maker, mint_b, 0);
    assert_eq!(
        ledger.transfer(3, taker, maker, &mut taker_ata_a, &mut taker_ata_b, &mut maker_ata_b),
        Err(EscrowError::RecordNotFound)
    );
    assert_eq!(taker_ata_b.balance(), 1_000);
}

#[test]
fn distinct_seeds_do_not_interfere() {
    let maker = id(9);
    let mint_a = id(10);
    let mint_b = id(11);
    let mut ledger = Ledger::new();
    let mut maker_ata_a = TokenAccount::new(maker, mint_a, 10_000);

    assert_eq!(ledger.make(1, 1_000, 500, maker, mint_a, mint_b, &mut maker_ata_a), Ok(()));
    assert_eq!(ledger.make(2, 2_000, 700, maker, mint_a, mint_b, &mut maker_ata_a), Ok(()));
    assert_eq!(ledger.open_count(), 2);
    assert_eq!(maker_ata_a.balance(), 7_000);

    assert_eq!(ledger.refund(1, maker, &mut maker_ata_a), Ok(()));
    assert_eq!(maker_ata_a.balance(), 8_000);
    assert!(!ledger.has_record(&maker, 1));
    assert!(ledger.has_record(&maker, 2));
    assert_eq!(ledger.vault_balance(&maker, 2), Some(2_000));
    assert_eq!(ledger.receive_of(&maker, 2), Some(700));
}

#[test]
fn duplicate_seed_is_rejected() {
    let maker = id(12);
    let mint_a = id(10);
    let mint_b = id(11);
    let mut ledger = Ledger::new();
    let mut maker_ata_a = TokenAccount::new(maker, mint_a, 10_000);

    assert_eq!(ledger.make(4, 1_000, 500, maker, mint_a, mint_b, &mut maker_ata_a), Ok(()));
    assert_eq!(
        ledger.make(4, 2_000, 700, maker, mint_a, mint_b, &mut maker_ata_a),
        Err(EscrowError::DuplicateRecord)
    );
    assert_eq!(maker_ata_a.balance(), 9_000);
    assert_eq!(ledger.vault_balance(&maker, 4), Some(1_000));
}

#[test]
fn foreign_source_account_is_rejected() {
    let maker = id(13);
    let other = id(14);
    let mint_a = id(10);
    let mint_b = id(11);
    let mut ledger = Ledger::new();
    let mut other_ata_a = TokenAccount::new(other, mint_a, 10_000);

    assert_eq!(
        ledger.make(1, 1_000, 500, maker, mint_a, mint_b, &mut other_ata_a),
        Err(EscrowError::AuthorizationFault)
    );
    assert_eq!(other_ata_a.balance(), 10_000);
    assert_eq!(ledger.open_count(), 0);
}

#[test]
fn wrong_mint_is_rejected() {
    let maker = id(15);
    let mint_a = id(10);
    let mint_b = id(11);
    let mut ledger = Ledger::new();
    let mut maker_ata_b = TokenAccount::new(maker, mint_b, 10_000);

    assert_eq!(
        ledger.make(1, 1_000, 500, maker, mint_a, mint_b, &mut maker_ata_b),
        Err(EscrowError::AssetMismatch)
    );
    assert_eq!(maker_ata_b.balance(), 10_000);
    assert_eq!(ledger.open_count(), 0);
}

#[test]
fn insufficient_deposit_is_rejected() {
    let maker = id(16);
    let mint_a = id(10);
    let mint_b = id(11);
    let mut ledger = Ledger::new();
    let mut maker_ata_a = TokenAccount::new(maker, mint_a, 999);

    assert_eq!(
        ledger.make(1, 1_000, 500, maker, mint_a, mint_b, &mut maker_ata_a),
        Err(EscrowError::InsufficientBalance)
    );
    assert_eq!(maker_ata_a.balance(), 999);
    assert_eq!(ledger.open_count(), 0);
}

#[test]
fn stale_proof_is_rejected() {
    let maker = id(17);
    let mint_a = id(10);
    let mint_b = id(11);
    let mut ledger = Ledger::new();
    let mut maker_ata_a = TokenAccount::new(maker, mint_a, 1_000);

    assert_eq!(
        ledger.init_escrow_and_deposit(1, 1_000, 500, maker, mint_a, mint_b, 7, &mut maker_ata_a),
        Ok(())
    );
    assert_eq!(
        ledger.refund_and_close_vault(1, maker, 8, &mut maker_ata_a),
        Err(EscrowError::DerivationMismatch)
    );
    assert_eq!(maker_ata_a.balance(), 0);
    assert!(ledger.has_record(&maker, 1));
    assert_eq!(ledger.refund_and_close_vault(1, maker, 7, &mut maker_ata_a), Ok(()));
    assert_eq!(maker_ata_a.balance(), 1_000);
}

#[test]
fn stored_proof_matches_host_derivation() {
    let maker = id(18);
    let mint_a = id(10);
    let mint_b = id(11);
    let mut ledger = Ledger::new();
    let mut maker_ata_a = TokenAccount::new(maker, mint_a, 1_000);

    assert_eq!(ledger.make(5, 1_000, 500, maker, mint_a, mint_b, &mut maker_ata_a), Ok(()));
    let record = ledger.record_of(&maker, 5).expect("record is open");
    assert_eq!(record.seed, 5);
    assert_eq!(record.maker.bytes, maker.bytes);
    assert_eq!(record.mint_a.bytes, mint_a.bytes);
    assert_eq!(record.mint_b.bytes, mint_b.bytes);
    assert_eq!(record.receive, 500);

    let program_id = solana_pubkey::Pubkey::new_from_array(escrow::derivation::PROTOCOL_ID);
    let (address, bump) = solana_pubkey::Pubkey::try_find_program_address(
        &[b"escrow", &maker.bytes, &5u64.to_le_bytes()],
        &program_id,
    )
    .expect("derivation succeeds");
    assert_eq!(record.bump, bump);
    assert_ne!(address.to_bytes(), maker.bytes);

    assert_eq!(ledger.refund(5, maker, &mut maker_ata_a), Ok(()));
    assert_eq!(maker_ata_a.balance(), 1_000);
}
