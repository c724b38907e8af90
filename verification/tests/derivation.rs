use htlc::errors::EscrowError;
use htlc::id::{address_to_bytes32, generate_contract_id};
use htlc::ledger::TokenLedger;
use htlc::principal::Principal;
use sha2::Digest;

fn principal(tag: u8) -> Principal {
    Principal::new(vec![tag; 8])
}

#[test]
fn identifier_is_32_bytes_and_deterministic() {
    let sender = principal(1);
    let receiver = principal(2);
    let hashlock = vec![0xabu8; 32];

    let id1 = generate_contract_id(&sender, &receiver, 5_000, &hashlock, 2_000, 1_000);
    let id2 = generate_contract_id(&sender, &receiver, 5_000, &hashlock, 2_000, 1_000);

    assert_eq!(id1.len(), 32);
    assert_eq!(id1, id2);
}

#[test]
fn identifier_depends_on_every_parameter() {
    let sender = principal(1);
    let receiver = principal(2);
    let other = principal(7);
    let hashlock = vec![0xabu8; 32];
    let other_lock = vec![0xacu8; 32];

    let base = generate_contract_id(&sender, &receiver, 5_000, &hashlock, 2_000, 1_000);

    assert_ne!(base, generate_contract_id(&other, &receiver, 5_000, &hashlock, 2_000, 1_000));
    assert_ne!(base, generate_contract_id(&sender, &other, 5_000, &hashlock, 2_000, 1_000));
    assert_ne!(base, generate_contract_id(&sender, &receiver, 5_001, &hashlock, 2_000, 1_000));
    assert_ne!(base, generate_contract_id(&sender, &receiver, 5_000, &other_lock, 2_000, 1_000));
    assert_ne!(base, generate_contract_id(&sender, &receiver, 5_000, &hashlock, 2_001, 1_000));
    assert_ne!(base, generate_contract_id(&sender, &receiver, 5_000, &hashlock, 2_000, 1_001));
}

#[test]
fn identifier_matches_packed_keccak() {
    // Partner systems recompute the identifier as Keccak-256 over
    // sha256(sender) || sha256(receiver) || amount || hashlock ||
    // timelock || timestamp, integers big-endian and fixed-width.
    let sender = principal(1);
    let receiver = principal(2);
    let hashlock = vec![0xabu8; 32];
    let amount: i128 = 5_000;
    let timelock: u64 = 2_000;
    let timestamp: u64 = 1_000;

    let mut packed: Vec<u8> = Vec::new();
    packed.extend_from_slice(&sha2::Sha256::digest(sender.as_bytes().as_slice()));
    packed.extend_from_slice(&sha2::Sha256::digest(receiver.as_bytes().as_slice()));
    packed.extend_from_slice(&amount.to_be_bytes());
    packed.extend_from_slice(&hashlock);
    packed.extend_from_slice(&timelock.to_be_bytes());
    packed.extend_from_slice(&timestamp.to_be_bytes());
    let expected = sha3::Keccak256::digest(packed.as_slice()).to_vec();

    let id = generate_contract_id(&sender, &receiver, amount, &hashlock, timelock, timestamp);
    assert_eq!(id, expected);
}

#[test]
fn principal_key_is_its_sha256() {
    let p = principal(4);
    let key = address_to_bytes32(&p);
    let direct = sha2::Sha256::digest(p.as_bytes().as_slice()).to_vec();
    assert_eq!(key, direct);
    assert_eq!(key.len(), 32);
    // Normalization really hashes: the key is not the encoding itself.
    assert_ne!(&key, p.as_bytes());
}

#[test]
fn ledger_transfer_moves_value() {
    let token = principal(3);
    let alice = principal(10);
    let bob = principal(11);
    let mut ledger = TokenLedger::new();

    assert_eq!(ledger.balance_of(&token, &alice), 0);
    ledger.mint(&token, &alice, 500).unwrap();
    assert_eq!(ledger.balance_of(&token, &alice), 500);

    ledger.transfer(&token, &alice, &bob, 200).unwrap();
    assert_eq!(ledger.balance_of(&token, &alice), 300);
    assert_eq!(ledger.balance_of(&token, &bob), 200);
}

#[test]
fn ledger_transfer_insufficient_balance() {
    let token = principal(3);
    let alice = principal(10);
    let bob = principal(11);
    let mut ledger = TokenLedger::new();
    ledger.mint(&token, &alice, 100).unwrap();

    let r = ledger.transfer(&token, &alice, &bob, 101);
    assert_eq!(r, Err(EscrowError::InsufficientBalance));
    assert_eq!(ledger.balance_of(&token, &alice), 100);
    assert_eq!(ledger.balance_of(&token, &bob), 0);
}

#[test]
fn error_names_are_distinct() {
    let all = [
        EscrowError::Unauthorized,
        EscrowError::InvalidAmount,
        EscrowError::InvalidSafetyDeposit,
        EscrowError::InvalidDeadline,
        EscrowError::AlreadyExists,
        EscrowError::NotFound,
        EscrowError::ReentrancyDetected,
        EscrowError::AlreadyWithdrawn,
        EscrowError::AlreadyRefunded,
        EscrowError::DeadlineExpired,
        EscrowError::DeadlineNotExpired,
        EscrowError::InvalidPreimage,
        EscrowError::InsufficientBalance,
    ];
    for i in 0..all.len() {
        for j in 0..all.len() {
            if i != j {
                assert_ne!(all[i].as_str(), all[j].as_str());
            }
        }
    }
}
