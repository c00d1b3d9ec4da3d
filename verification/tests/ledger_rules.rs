//! The ledger dispatch rules on plain state.

use tornado::ledger::{Error, Event, Ledger};
use tornado::types::COIN_NOMINATION;

#[test]
fn public_mint_and_balance() {
    let mut ledger = Ledger::new();
    assert_eq!(ledger.balance(1), 0);
    assert_eq!(ledger.mint_public_coin(1, 500), Ok(Event::PublicCoinMint(1, 500)));
    assert_eq!(ledger.balance(1), 500);
    assert_eq!(ledger.mint_public_coin(1, 250), Ok(Event::PublicCoinMint(1, 250)));
    assert_eq!(ledger.balance(1), 750);
    assert_eq!(ledger.balance(2), 0);
}

#[test]
fn public_transfer_moves_value() {
    let mut ledger = Ledger::new();
    ledger.mint_public_coin(1, 900).unwrap();
    assert_eq!(ledger.public_transfer(1, 2, 300), Ok(Event::PublicTransfer(1, 2, 300)));
    assert_eq!(ledger.balance(1), 600);
    assert_eq!(ledger.balance(2), 300);
    // A sender whose balance does not cover the amount is rejected.
    assert_eq!(ledger.public_transfer(2, 1, 301), Err(Error::NotEnoughBalance));
    assert_eq!(ledger.balance(1), 600);
    assert_eq!(ledger.balance(2), 300);
}

#[test]
fn private_mint_burns_one_nomination() {
    let mut ledger = Ledger::new();
    let utxo = [7u8; 32];
    let proof = [11u8; 192];
    // Not enough balance first.
    assert_eq!(ledger.mint_private_iou(1, utxo, proof, true), Err(Error::NotEnoughBalance));
    ledger.mint_public_coin(1, 3 * COIN_NOMINATION).unwrap();
    // An invalid proof is rejected before anything moves.
    assert_eq!(ledger.mint_private_iou(1, utxo, proof, false), Err(Error::InvalidMintZKP));
    assert_eq!(ledger.balance(1), 3 * COIN_NOMINATION);
    // A valid mint burns exactly one nomination and announces the proof.
    assert_eq!(
        ledger.mint_private_iou(1, utxo, proof, true),
        Ok(Event::PrivateIOUMint(1, COIN_NOMINATION, utxo, proof))
    );
    assert_eq!(ledger.balance(1), 2 * COIN_NOMINATION);
}

#[test]
fn duplicate_commitment_is_rejected() {
    let mut ledger = Ledger::new();
    ledger.mint_public_coin(1, 10 * COIN_NOMINATION).unwrap();
    let utxo = [9u8; 32];
    let proof = [12u8; 192];
    ledger.record_utxo(utxo);
    assert_eq!(ledger.mint_private_iou(1, utxo, proof, true), Err(Error::DuplicateUtxo));
    assert_eq!(ledger.balance(1), 10 * COIN_NOMINATION);
    let fresh = [10u8; 32];
    assert!(ledger.mint_private_iou(1, fresh, proof, true).is_ok());
}

#[test]
fn claim_credits_one_nomination() {
    let mut ledger = Ledger::new();
    assert_eq!(ledger.claim_private_iou(4, false), Err(Error::InvalidClaimZKP));
    assert_eq!(ledger.balance(4), 0);
    assert_eq!(
        ledger.claim_private_iou(4, true),
        Ok(Event::PrivateIOUClaimed(4, COIN_NOMINATION))
    );
    assert_eq!(ledger.balance(4), COIN_NOMINATION);
    ledger.record_void_number([3u8; 32]);
    assert_eq!(ledger.void_number_set.len(), 1);
}
