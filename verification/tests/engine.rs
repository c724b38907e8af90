use htlc::errors::EscrowError;
use htlc::htlc::{EscrowEvent, HTLCContract, HTLCStatus};
use htlc::ledger::TokenLedger;
use htlc::principal::Principal;
use sha2::Digest;

const AMOUNT: i128 = 1_000_000_000; // 100 tokens at 7 decimals
const SAFETY_DEPOSIT: i128 = 100_000_000; // 10 tokens
const TIMELOCK_SECS: u64 = 3_600; // 1 hour
const NOW: u64 = 1_700_000_000;

fn principal(tag: u8) -> Principal {
    Principal::new(vec![tag; 8])
}

/// An engine with custody under its own principal, a token, and a
/// sender holding exactly `AMOUNT + SAFETY_DEPOSIT` of it.
fn setup() -> (HTLCContract, TokenLedger, Principal, Principal, Principal) {
    let sender = principal(1);
    let receiver = principal(2);
    let token = principal(3);
    let custody = principal(9);
    let mut ledger = TokenLedger::new();
    ledger.mint(&token, &sender, AMOUNT + SAFETY_DEPOSIT).unwrap();
    let engine = HTLCContract::new(custody);
    (engine, ledger, sender, receiver, token)
}

fn hashlock_pair() -> (Vec<u8>, Vec<u8>) {
    let preimage = vec![42u8; 32];
    let hashlock = sha2::Sha256::digest(preimage.as_slice()).to_vec();
    (hashlock, preimage)
}

fn create_default(
    engine: &mut HTLCContract,
    ledger: &mut TokenLedger,
    sender: &Principal,
    receiver: &Principal,
    token: &Principal,
    hashlock: &Vec<u8>,
) -> Vec<u8> {
    engine
        .create_htlc(
            ledger,
            sender,
            NOW,
            sender,
            receiver,
            AMOUNT,
            token,
            hashlock,
            NOW + TIMELOCK_SECS,
            SAFETY_DEPOSIT,
        )
        .unwrap()
}

//------------------------------------------------------------------
//  Happy-path tests
//------------------------------------------------------------------

#[test]
fn create_htlc_success() {
    let (mut engine, mut ledger, sender, receiver, token) = setup();
    let (hashlock, _) = hashlock_pair();

    let contract_id = create_default(&mut engine, &mut ledger, &sender, &receiver, &token, &hashlock);

    let htlc_data = engine.get_htlc(&contract_id).unwrap();

    assert_eq!(htlc_data.sender, sender);
    assert_eq!(htlc_data.receiver, receiver);
    assert_eq!(htlc_data.amount, AMOUNT);
    assert_eq!(htlc_data.token_address, token);
    assert_eq!(htlc_data.status, HTLCStatus::Active);
    assert_eq!(htlc_data.safety_deposit, SAFETY_DEPOSIT);
}

#[test]
fn withdraw_success() {
    let (mut engine, mut ledger, sender, receiver, token) = setup();
    let (hashlock, preimage) = hashlock_pair();

    let contract_id = create_default(&mut engine, &mut ledger, &sender, &receiver, &token, &hashlock);

    engine.withdraw(&mut ledger, &receiver, NOW + 1, &contract_id, &preimage).unwrap();
    assert_eq!(engine.get_status(&contract_id).unwrap(), HTLCStatus::Withdrawn);
}

#[test]
fn refund_success() {
    let (mut engine, mut ledger, sender, receiver, token) = setup();
    let (hashlock, _) = hashlock_pair();

    let contract_id = create_default(&mut engine, &mut ledger, &sender, &receiver, &token, &hashlock);

    // Past the timelock the sender may reclaim.
    engine.refund(&mut ledger, &sender, NOW + TIMELOCK_SECS + 1, &contract_id).unwrap();
    assert_eq!(engine.get_status(&contract_id).unwrap(), HTLCStatus::Refunded);
}

//------------------------------------------------------------------
//  Input-validation tests
//------------------------------------------------------------------

#[test]
fn create_amount_zero() {
    let (mut engine, mut ledger, sender, receiver, token) = setup();
    let (hashlock, _) = hashlock_pair();
    let sender_before = ledger.balance_of(&token, &sender);

    let r = engine.create_htlc(
        &mut ledger,
        &sender,
        NOW,
        &sender,
        &receiver,
        0,
        &token,
        &hashlock,
        NOW + TIMELOCK_SECS,
        SAFETY_DEPOSIT,
    );

    assert_eq!(r, Err(EscrowError::InvalidAmount));
    // Nothing was persisted and nothing moved.
    let would_be_id =
        htlc::id::generate_contract_id(&sender, &receiver, 0, &hashlock, NOW + TIMELOCK_SECS, NOW);
    assert!(!engine.contract_exists(&would_be_id));
    assert_eq!(ledger.balance_of(&token, &sender), sender_before);
    assert_eq!(engine.event_log().len(), 0);
}

#[test]
fn create_negative_safety() {
    let (mut engine, mut ledger, sender, receiver, token) = setup();
    let (hashlock, _) = hashlock_pair();

    let r = engine.create_htlc(
        &mut ledger,
        &sender,
        NOW,
        &sender,
        &receiver,
        AMOUNT,
        &token,
        &hashlock,
        NOW + TIMELOCK_SECS,
        -1,
    );

    assert_eq!(r, Err(EscrowError::InvalidSafetyDeposit));
}

#[test]
fn create_past_timelock() {
    let (mut engine, mut ledger, sender, receiver, token) = setup();
    let (hashlock, _) = hashlock_pair();

    let r = engine.create_htlc(
        &mut ledger,
        &sender,
        NOW,
        &sender,
        &receiver,
        AMOUNT,
        &token,
        &hashlock,
        NOW - 1,
        SAFETY_DEPOSIT,
    );

    assert_eq!(r, Err(EscrowError::InvalidDeadline));
}

//------------------------------------------------------------------
//  Error-handling / edge cases
//------------------------------------------------------------------

#[test]
fn duplicate_contract() {
    let (mut engine, mut ledger, sender, receiver, token) = setup();
    let (hashlock, _) = hashlock_pair();

    create_default(&mut engine, &mut ledger, &sender, &receiver, &token, &hashlock);

    // Second call with the same parameters at the same instant derives
    // the same identifier.
    let r = engine.create_htlc(
        &mut ledger,
        &sender,
        NOW,
        &sender,
        &receiver,
        AMOUNT,
        &token,
        &hashlock,
        NOW + TIMELOCK_SECS,
        SAFETY_DEPOSIT,
    );

    assert_eq!(r, Err(EscrowError::AlreadyExists));
}

#[test]
fn wrong_preimage() {
    let (mut engine, mut ledger, sender, receiver, token) = setup();
    let (hashlock, _) = hashlock_pair();

    let contract_id = create_default(&mut engine, &mut ledger, &sender, &receiver, &token, &hashlock);

    let bad_preimage = vec![1u8; 32];
    let r = engine.withdraw(&mut ledger, &receiver, NOW + 1, &contract_id, &bad_preimage);
    assert_eq!(r, Err(EscrowError::InvalidPreimage));
}

#[test]
fn withdraw_after_timelock() {
    let (mut engine, mut ledger, sender, receiver, token) = setup();
    let (hashlock, preimage) = hashlock_pair();

    let contract_id = create_default(&mut engine, &mut ledger, &sender, &receiver, &token, &hashlock);

    let r = engine.withdraw(
        &mut ledger,
        &receiver,
        NOW + TIMELOCK_SECS + 1,
        &contract_id,
        &preimage,
    );
    assert_eq!(r, Err(EscrowError::DeadlineExpired));
}

#[test]
fn refund_before_timelock() {
    let (mut engine, mut ledger, sender, receiver, token) = setup();
    let (hashlock, _) = hashlock_pair();

    let contract_id = create_default(&mut engine, &mut ledger, &sender, &receiver, &token, &hashlock);

    let r = engine.refund(&mut ledger, &sender, NOW + 1, &contract_id); // too early
    assert_eq!(r, Err(EscrowError::DeadlineNotExpired));
}

#[test]
fn double_withdraw() {
    let (mut engine, mut ledger, sender, receiver, token) = setup();
    let (hashlock, preimage) = hashlock_pair();

    let contract_id = create_default(&mut engine, &mut ledger, &sender, &receiver, &token, &hashlock);

    engine.withdraw(&mut ledger, &receiver, NOW + 1, &contract_id, &preimage).unwrap();
    let r = engine.withdraw(&mut ledger, &receiver, NOW + 2, &contract_id, &preimage);
    assert_eq!(r, Err(EscrowError::AlreadyWithdrawn));
}

#[test]
fn double_refund() {
    let (mut engine, mut ledger, sender, receiver, token) = setup();
    let (hashlock, _) = hashlock_pair();

    let contract_id = create_default(&mut engine, &mut ledger, &sender, &receiver, &token, &hashlock);

    engine.refund(&mut ledger, &sender, NOW + TIMELOCK_SECS + 1, &contract_id).unwrap();
    let r = engine.refund(&mut ledger, &sender, NOW + TIMELOCK_SECS + 2, &contract_id);
    assert_eq!(r, Err(EscrowError::AlreadyRefunded));
}

#[test]
fn get_nonexistent() {
    let (engine, _ledger, _sender, _receiver, _token) = setup();
    let fake_id = vec![7u8; 32];
    assert_eq!(engine.get_htlc(&fake_id).err(), Some(EscrowError::NotFound));
    assert_eq!(engine.get_status(&fake_id).err(), Some(EscrowError::NotFound));
}

#[test]
fn withdraw_unknown_id() {
    let (mut engine, mut ledger, _sender, receiver, _token) = setup();
    let fake_id = vec![8u8; 32];
    let any_secret = vec![5u8; 32];
    let r = engine.withdraw(&mut ledger, &receiver, NOW, &fake_id, &any_secret);
    assert_eq!(r, Err(EscrowError::NotFound));
}

//------------------------------------------------------------------
//  Utility / uniqueness checks
//------------------------------------------------------------------

#[test]
fn contract_id_unique() {
    let (mut engine, mut ledger, sender, receiver, token) = setup();
    let (hashlock1, _) = hashlock_pair();

    let contract_id1 =
        create_default(&mut engine, &mut ledger, &sender, &receiver, &token, &hashlock1);

    // A later instant yields a different identifier even for otherwise
    // identical economics.
    ledger.mint(&token, &sender, AMOUNT + SAFETY_DEPOSIT).unwrap();
    let (hashlock2, _) = hashlock_pair();
    let contract_id2 = engine
        .create_htlc(
            &mut ledger,
            &sender,
            NOW + 1,
            &sender,
            &receiver,
            AMOUNT,
            &token,
            &hashlock2,
            NOW + TIMELOCK_SECS + 1,
            SAFETY_DEPOSIT,
        )
        .unwrap();

    assert_ne!(contract_id1, contract_id2);
}

#[test]
fn contract_exists_flag() {
    let (mut engine, mut ledger, sender, receiver, token) = setup();
    let (hashlock, _) = hashlock_pair();

    let contract_id = create_default(&mut engine, &mut ledger, &sender, &receiver, &token, &hashlock);

    assert!(engine.contract_exists(&contract_id));

    let fake_id = vec![0u8; 32];
    assert!(!engine.contract_exists(&fake_id));
}

//------------------------------------------------------------------
//  Authorization and custody movement
//------------------------------------------------------------------

#[test]
fn create_requires_sender_authority() {
    let (mut engine, mut ledger, sender, receiver, token) = setup();
    let (hashlock, _) = hashlock_pair();

    let r = engine.create_htlc(
        &mut ledger,
        &receiver, // not the sender
        NOW,
        &sender,
        &receiver,
        AMOUNT,
        &token,
        &hashlock,
        NOW + TIMELOCK_SECS,
        SAFETY_DEPOSIT,
    );
    assert_eq!(r, Err(EscrowError::Unauthorized));
}

#[test]
fn withdraw_requires_receiver_authority() {
    let (mut engine, mut ledger, sender, receiver, token) = setup();
    let (hashlock, preimage) = hashlock_pair();

    let contract_id = create_default(&mut engine, &mut ledger, &sender, &receiver, &token, &hashlock);

    let r = engine.withdraw(&mut ledger, &sender, NOW + 1, &contract_id, &preimage);
    assert_eq!(r, Err(EscrowError::Unauthorized));
}

#[test]
fn refund_requires_sender_authority() {
    let (mut engine, mut ledger, sender, receiver, token) = setup();
    let (hashlock, _) = hashlock_pair();

    let contract_id = create_default(&mut engine, &mut ledger, &sender, &receiver, &token, &hashlock);

    let r = engine.refund(&mut ledger, &receiver, NOW + TIMELOCK_SECS + 1, &contract_id);
    assert_eq!(r, Err(EscrowError::Unauthorized));
}

#[test]
fn create_insufficient_balance() {
    let (mut engine, mut ledger, sender, receiver, token) = setup();
    let (hashlock, _) = hashlock_pair();

    // One unit more than the sender holds.
    let r = engine.create_htlc(
        &mut ledger,
        &sender,
        NOW,
        &sender,
        &receiver,
        AMOUNT + SAFETY_DEPOSIT + 1,
        &token,
        &hashlock,
        NOW + TIMELOCK_SECS,
        0,
    );
    assert_eq!(r, Err(EscrowError::InsufficientBalance));
    assert_eq!(ledger.balance_of(&token, &sender), AMOUNT + SAFETY_DEPOSIT);
    assert_eq!(engine.event_log().len(), 0);
}

#[test]
fn withdraw_pays_receiver_and_returns_deposit() {
    let (mut engine, mut ledger, sender, receiver, token) = setup();
    let (hashlock, preimage) = hashlock_pair();

    let contract_id = create_default(&mut engine, &mut ledger, &sender, &receiver, &token, &hashlock);

    // Custody holds everything after creation.
    assert_eq!(ledger.balance_of(&token, &sender), 0);
    assert_eq!(ledger.balance_of(&token, engine.custody()), AMOUNT + SAFETY_DEPOSIT);

    engine.withdraw(&mut ledger, &receiver, NOW + 1, &contract_id, &preimage).unwrap();

    assert_eq!(ledger.balance_of(&token, &receiver), AMOUNT);
    assert_eq!(ledger.balance_of(&token, &sender), SAFETY_DEPOSIT);
    assert_eq!(ledger.balance_of(&token, engine.custody()), 0);
}

#[test]
fn refund_restores_sender_balance() {
    let (mut engine, mut ledger, sender, receiver, token) = setup();
    let (hashlock, preimage) = hashlock_pair();

    let contract_id = create_default(&mut engine, &mut ledger, &sender, &receiver, &token, &hashlock);

    engine.refund(&mut ledger, &sender, NOW + TIMELOCK_SECS + 1, &contract_id).unwrap();

    assert_eq!(ledger.balance_of(&token, &sender), AMOUNT + SAFETY_DEPOSIT);
    assert_eq!(ledger.balance_of(&token, &receiver), 0);
    assert_eq!(ledger.balance_of(&token, engine.custody()), 0);

    // The revealed secret no longer helps: the escrow is resolved.
    let r = engine.withdraw(
        &mut ledger,
        &receiver,
        NOW + TIMELOCK_SECS + 2,
        &contract_id,
        &preimage,
    );
    assert_eq!(r, Err(EscrowError::AlreadyRefunded));
}

#[test]
fn withdraw_event_reveals_secret() {
    let (mut engine, mut ledger, sender, receiver, token) = setup();
    let (hashlock, preimage) = hashlock_pair();

    let contract_id = create_default(&mut engine, &mut ledger, &sender, &receiver, &token, &hashlock);
    engine.withdraw(&mut ledger, &receiver, NOW + 1, &contract_id, &preimage).unwrap();

    let log = engine.event_log();
    assert_eq!(log.len(), 2);
    match &log[0] {
        EscrowEvent::HTLCNew { contract_id: cid, amount, safety_deposit, .. } => {
            assert_eq!(cid, &contract_id);
            assert_eq!(*amount, AMOUNT);
            assert_eq!(*safety_deposit, SAFETY_DEPOSIT);
        },
        _ => panic!("first event should announce the creation"),
    }
    match &log[1] {
        EscrowEvent::HTLCWithdraw { contract_id: cid, preimage: revealed } => {
            assert_eq!(cid, &contract_id);
            assert_eq!(revealed, &preimage);
        },
        _ => panic!("second event should reveal the secret"),
    }
}

#[test]
fn hashlock_is_a_digest_not_the_secret() {
    let (mut engine, mut ledger, sender, receiver, token) = setup();
    // Commit to the raw secret bytes as if they were a digest: the
    // engine must still hash the revealed secret, so the claim fails.
    let secret = vec![42u8; 32];
    let contract_id = create_default(&mut engine, &mut ledger, &sender, &receiver, &token, &secret);

    let r = engine.withdraw(&mut ledger, &receiver, NOW + 1, &contract_id, &secret);
    assert_eq!(r, Err(EscrowError::InvalidPreimage));
}
