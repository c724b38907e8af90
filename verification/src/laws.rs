//! The engine's global guarantees, stated and proved over the
//! transition functions of `htlc`.
//!
//! Identifier uniqueness up to digest collision lives in `id`
//! (`lemma_pack_id_fields_injective` and its corollary): it is a fact
//! about the packing alone. Everything that concerns the state machine
//! is here.

use vstd::prelude::*;
use crate::digest::sha256_of;
use crate::errors::EscrowError;
use crate::htlc::{
    create_next, create_outcome, refund_funding_ok, refund_next, refund_outcome, valid_record,
    withdraw_funding_ok, withdraw_next, withdraw_outcome, EngineV, HTLCStatus,
};
use crate::id::derive_id;
use crate::ledger::BalanceMap;

verus! {

/// A second creation with identical parameters at an identical clock
/// reading derives the identical identifier and is rejected with
/// `AlreadyExists`: the record the first creation persisted occupies
/// it.
pub proof fn lemma_duplicate_create_rejected(
    m: EngineV,
    l: BalanceMap,
    caller: Seq<u8>,
    now: u64,
    sender: Seq<u8>,
    receiver: Seq<u8>,
    amount: i128,
    token: Seq<u8>,
    hashlock: Seq<u8>,
    timelock: u64,
    safety_deposit: i128,
)
    ensures
        ({
            let r1 = create_outcome(
                m,
                l,
                caller,
                now,
                sender,
                receiver,
                amount,
                token,
                hashlock,
                timelock,
                safety_deposit,
            );
            let (m1, l1) = create_next(
                m,
                l,
                caller,
                now,
                sender,
                receiver,
                amount,
                token,
                hashlock,
                timelock,
                safety_deposit,
            );
            r1 is Ok ==> r1 == Ok::<Seq<u8>, EscrowError>(
                derive_id(sender, receiver, amount, hashlock, timelock, now),
            ) && create_outcome(
                m1,
                l1,
                caller,
                now,
                sender,
                receiver,
                amount,
                token,
                hashlock,
                timelock,
                safety_deposit,
            ) == Err::<Seq<u8>, EscrowError>(EscrowError::AlreadyExists)
        }),
{
}

/// After a successful withdraw, neither terminal transition can ever
/// run again on that escrow: any refund, and any further withdraw, is
/// rejected, with `AlreadyWithdrawn` for the rightful party.
pub proof fn lemma_withdraw_excludes_refund(
    m: EngineV,
    l: BalanceMap,
    caller: Seq<u8>,
    now: u64,
    contract_id: Seq<u8>,
    preimage: Seq<u8>,
    l2: BalanceMap,
    caller2: Seq<u8>,
    now2: u64,
    preimage2: Seq<u8>,
)
    ensures
        ({
            let (m1, l1) = withdraw_next(m, l, caller, now, contract_id, preimage);
            withdraw_outcome(m, l, caller, now, contract_id, preimage) is Ok ==> {
                &&& !(refund_outcome(m1, l2, caller2, now2, contract_id) is Ok)
                &&& !(withdraw_outcome(m1, l2, caller2, now2, contract_id, preimage2) is Ok)
                &&& (caller2 == m.store[contract_id].sender ==> refund_outcome(
                    m1,
                    l2,
                    caller2,
                    now2,
                    contract_id,
                ) == Err::<(), EscrowError>(EscrowError::AlreadyWithdrawn))
                &&& (caller2 == m.store[contract_id].receiver ==> withdraw_outcome(
                    m1,
                    l2,
                    caller2,
                    now2,
                    contract_id,
                    preimage2,
                ) == Err::<(), EscrowError>(EscrowError::AlreadyWithdrawn))
            }
        }),
{
}

/// After a successful refund, neither terminal transition can ever run
/// again on that escrow: any withdraw, and any further refund, is
/// rejected, with `AlreadyRefunded` for the rightful party.
pub proof fn lemma_refund_excludes_withdraw(
    m: EngineV,
    l: BalanceMap,
    caller: Seq<u8>,
    now: u64,
    contract_id: Seq<u8>,
    l2: BalanceMap,
    caller2: Seq<u8>,
    now2: u64,
    preimage2: Seq<u8>,
)
    ensures
        ({
            let (m1, l1) = refund_next(m, l, caller, now, contract_id);
            refund_outcome(m, l, caller, now, contract_id) is Ok ==> {
                &&& !(withdraw_outcome(m1, l2, caller2, now2, contract_id, preimage2) is Ok)
                &&& !(refund_outcome(m1, l2, caller2, now2, contract_id) is Ok)
                &&& (caller2 == m.store[contract_id].receiver ==> withdraw_outcome(
                    m1,
                    l2,
                    caller2,
                    now2,
                    contract_id,
                    preimage2,
                ) == Err::<(), EscrowError>(EscrowError::AlreadyRefunded))
                &&& (caller2 == m.store[contract_id].sender ==> refund_outcome(
                    m1,
                    l2,
                    caller2,
                    now2,
                    contract_id,
                ) == Err::<(), EscrowError>(EscrowError::AlreadyRefunded))
            }
        }),
{
}

/// Once a record is `Active`, the timeline is covered exactly once: a
/// withdraw (by the receiver, with the right secret, funded) succeeds
/// exactly at the instants strictly before the deadline, a refund (by
/// the sender, funded) exactly at the instants at or after it, and no
/// instant permits both or neither.
pub proof fn lemma_temporal_boundary(
    m: EngineV,
    l: BalanceMap,
    now: u64,
    contract_id: Seq<u8>,
    preimage: Seq<u8>,
)
    requires
        m.store.contains_key(contract_id),
        m.store[contract_id].status == HTLCStatus::Active,
        !m.store[contract_id].locked,
    ensures
        ({
            let rec = m.store[contract_id];
            &&& (sha256_of(preimage) == rec.hashlock && withdraw_funding_ok(l, rec, m.custody))
                ==> ((withdraw_outcome(m, l, rec.receiver, now, contract_id, preimage) is Ok)
                <==> now < rec.timelock)
            &&& refund_funding_ok(l, rec, m.custody) ==> ((refund_outcome(
                m,
                l,
                rec.sender,
                now,
                contract_id,
            ) is Ok) <==> now >= rec.timelock)
            &&& !(now < rec.timelock && now >= rec.timelock)
            &&& now < rec.timelock || now >= rec.timelock
        }),
{
}

/// A withdraw fails with `InvalidPreimage` for every secret whose
/// digest misses the hashlock, and succeeds for a secret whose digest
/// meets it (given funding); the revealed secret decides alone.
pub proof fn lemma_preimage_soundness(
    m: EngineV,
    l: BalanceMap,
    now: u64,
    contract_id: Seq<u8>,
    preimage: Seq<u8>,
)
    requires
        m.store.contains_key(contract_id),
        m.store[contract_id].status == HTLCStatus::Active,
        !m.store[contract_id].locked,
        now < m.store[contract_id].timelock,
    ensures
        ({
            let rec = m.store[contract_id];
            &&& sha256_of(preimage) != rec.hashlock ==> withdraw_outcome(
                m,
                l,
                rec.receiver,
                now,
                contract_id,
                preimage,
            ) == Err::<(), EscrowError>(EscrowError::InvalidPreimage)
            &&& (sha256_of(preimage) == rec.hashlock && withdraw_funding_ok(l, rec, m.custody))
                ==> withdraw_outcome(m, l, rec.receiver, now, contract_id, preimage) is Ok
        }),
{
}

/// A successful creation moves exactly `amount + safety_deposit` of
/// the escrowed asset from the sender into custody.
pub proof fn lemma_create_conservation(
    m: EngineV,
    l: BalanceMap,
    caller: Seq<u8>,
    now: u64,
    sender: Seq<u8>,
    receiver: Seq<u8>,
    amount: i128,
    token: Seq<u8>,
    hashlock: Seq<u8>,
    timelock: u64,
    safety_deposit: i128,
)
    requires
        m.custody != sender,
    ensures
        ({
            let (m1, l1) = create_next(
                m,
                l,
                caller,
                now,
                sender,
                receiver,
                amount,
                token,
                hashlock,
                timelock,
                safety_deposit,
            );
            create_outcome(
                m,
                l,
                caller,
                now,
                sender,
                receiver,
                amount,
                token,
                hashlock,
                timelock,
                safety_deposit,
            ) is Ok ==> {
                &&& l1[(token, m.custody)] == l[(token, m.custody)] + amount + safety_deposit
                &&& l1[(token, sender)] == l[(token, sender)] - amount - safety_deposit
            }
        }),
{
}

/// A successful withdraw moves exactly `amount + safety_deposit` out
/// of custody: the principal to the receiver and the safety deposit
/// back to the sender. Stated for escrows whose parties are distinct
/// from the custody account.
pub proof fn lemma_withdraw_conservation(
    m: EngineV,
    l: BalanceMap,
    caller: Seq<u8>,
    now: u64,
    contract_id: Seq<u8>,
    preimage: Seq<u8>,
)
    requires
        m.store.contains_key(contract_id),
        valid_record(m.store[contract_id]),
        m.custody != m.store[contract_id].receiver,
        m.custody != m.store[contract_id].sender,
    ensures
        ({
            let rec = m.store[contract_id];
            let t = rec.token_address;
            let (m1, l1) = withdraw_next(m, l, caller, now, contract_id, preimage);
            withdraw_outcome(m, l, caller, now, contract_id, preimage) is Ok ==> {
                &&& l1[(t, m.custody)] == l[(t, m.custody)] - rec.amount - rec.safety_deposit
                &&& (rec.receiver != rec.sender ==> l1[(t, rec.receiver)] == l[(t, rec.receiver)]
                    + rec.amount && l1[(t, rec.sender)] == l[(t, rec.sender)]
                    + rec.safety_deposit)
            }
        }),
{
}

/// A successful refund moves exactly `amount + safety_deposit` out of
/// custody, all of it back to the sender. Stated for escrows whose
/// sender is distinct from the custody account.
pub proof fn lemma_refund_conservation(
    m: EngineV,
    l: BalanceMap,
    caller: Seq<u8>,
    now: u64,
    contract_id: Seq<u8>,
)
    requires
        m.store.contains_key(contract_id),
        valid_record(m.store[contract_id]),
        m.custody != m.store[contract_id].sender,
    ensures
        ({
            let rec = m.store[contract_id];
            let t = rec.token_address;
            let (m1, l1) = refund_next(m, l, caller, now, contract_id);
            refund_outcome(m, l, caller, now, contract_id) is Ok ==> {
                &&& l1[(t, m.custody)] == l[(t, m.custody)] - rec.amount - rec.safety_deposit
                &&& l1[(t, rec.sender)] == l[(t, rec.sender)] + rec.amount + rec.safety_deposit
            }
        }),
{
}

/// One engine operation, as data: a point of a trace.
pub enum EngineOp {
    Create {
        caller: Seq<u8>,
        now: u64,
        sender: Seq<u8>,
        receiver: Seq<u8>,
        amount: i128,
        token: Seq<u8>,
        hashlock: Seq<u8>,
        timelock: u64,
        safety_deposit: i128,
    },
    Withdraw { caller: Seq<u8>, now: u64, contract_id: Seq<u8>, preimage: Seq<u8> },
    Refund { caller: Seq<u8>, now: u64, contract_id: Seq<u8> },
}

/// The engine and ledger after one operation of a trace.
pub open spec fn step(s: (EngineV, BalanceMap), op: EngineOp) -> (EngineV, BalanceMap) {
    match op {
        EngineOp::Create {
            caller,
            now,
            sender,
            receiver,
            amount,
            token,
            hashlock,
            timelock,
            safety_deposit,
        } => create_next(
            s.0,
            s.1,
            caller,
            now,
            sender,
            receiver,
            amount,
            token,
            hashlock,
            timelock,
            safety_deposit,
        ),
        EngineOp::Withdraw { caller, now, contract_id, preimage } => withdraw_next(
            s.0,
            s.1,
            caller,
            now,
            contract_id,
            preimage,
        ),
        EngineOp::Refund { caller, now, contract_id } => refund_next(s.0, s.1, caller, now, contract_id),
    }
}

/// The engine and ledger after a whole trace of operations.
pub open spec fn run(s: (EngineV, BalanceMap), ops: Seq<EngineOp>) -> (EngineV, BalanceMap)
    decreases ops.len(),
{
    if ops.len() == 0 {
        s
    } else {
        run(step(s, ops.first()), ops.drop_first())
    }
}

/// A record that has left `Active` never changes again, over any trace
/// of operations whatsoever.
pub proof fn lemma_resolved_record_stable_run(
    s: (EngineV, BalanceMap),
    ops: Seq<EngineOp>,
    id: Seq<u8>,
)
    ensures
        (s.0.store.contains_key(id) && s.0.store[id].status != HTLCStatus::Active) ==> {
            let (m2, l2) = run(s, ops);
            m2.store.contains_key(id) && m2.store[id] == s.0.store[id]
        },
    decreases ops.len(),
{
    if ops.len() > 0 && s.0.store.contains_key(id) && s.0.store[id].status != HTLCStatus::Active {
        let s1 = step(s, ops.first());
        match ops.first() {
            EngineOp::Create {
                caller,
                now,
                sender,
                receiver,
                amount,
                token,
                hashlock,
                timelock,
                safety_deposit,
            } => {
                lemma_resolved_record_stable_create(
                    s.0,
                    s.1,
                    caller,
                    now,
                    sender,
                    receiver,
                    amount,
                    token,
                    hashlock,
                    timelock,
                    safety_deposit,
                    id,
                );
            },
            EngineOp::Withdraw { caller, now, contract_id, preimage } => {
                lemma_resolved_record_stable_withdraw(
                    s.0,
                    s.1,
                    caller,
                    now,
                    contract_id,
                    preimage,
                    id,
                );
            },
            EngineOp::Refund { caller, now, contract_id } => {
                lemma_resolved_record_stable_refund(s.0, s.1, caller, now, contract_id, id);
            },
        }
        lemma_resolved_record_stable_run(s1, ops.drop_first(), id);
    }
}

/// At most one terminal transition ever succeeds on an escrow: once a
/// withdraw has succeeded, no refund and no further withdraw of that
/// escrow ever succeeds, whatever operations run in between.
pub proof fn lemma_withdraw_exclusive_forever(
    m: EngineV,
    l: BalanceMap,
    caller: Seq<u8>,
    now: u64,
    contract_id: Seq<u8>,
    preimage: Seq<u8>,
    ops: Seq<EngineOp>,
    caller2: Seq<u8>,
    now2: u64,
    preimage2: Seq<u8>,
)
    ensures
        ({
            let (m2, l2) = run(withdraw_next(m, l, caller, now, contract_id, preimage), ops);
            withdraw_outcome(m, l, caller, now, contract_id, preimage) is Ok ==> {
                &&& !(refund_outcome(m2, l2, caller2, now2, contract_id) is Ok)
                &&& !(withdraw_outcome(m2, l2, caller2, now2, contract_id, preimage2) is Ok)
            }
        }),
{
    if withdraw_outcome(m, l, caller, now, contract_id, preimage) is Ok {
        let s1 = withdraw_next(m, l, caller, now, contract_id, preimage);
        assert(s1.0.store[contract_id].status == HTLCStatus::Withdrawn);
        lemma_resolved_record_stable_run(s1, ops, contract_id);
    }
}

/// At most one terminal transition ever succeeds on an escrow: once a
/// refund has succeeded, no withdraw and no further refund of that
/// escrow ever succeeds, whatever operations run in between.
pub proof fn lemma_refund_exclusive_forever(
    m: EngineV,
    l: BalanceMap,
    caller: Seq<u8>,
    now: u64,
    contract_id: Seq<u8>,
    ops: Seq<EngineOp>,
    caller2: Seq<u8>,
    now2: u64,
    preimage2: Seq<u8>,
)
    ensures
        ({
            let (m2, l2) = run(refund_next(m, l, caller, now, contract_id), ops);
            refund_outcome(m, l, caller, now, contract_id) is Ok ==> {
                &&& !(withdraw_outcome(m2, l2, caller2, now2, contract_id, preimage2) is Ok)
                &&& !(refund_outcome(m2, l2, caller2, now2, contract_id) is Ok)
            }
        }),
{
    if refund_outcome(m, l, caller, now, contract_id) is Ok {
        let s1 = refund_next(m, l, caller, now, contract_id);
        assert(s1.0.store[contract_id].status == HTLCStatus::Refunded);
        lemma_resolved_record_stable_run(s1, ops, contract_id);
    }
}

/// A record that has left `Active` never changes again: a creation
/// writes only a fresh identifier.
pub proof fn lemma_resolved_record_stable_create(
    m: EngineV,
    l: BalanceMap,
    caller: Seq<u8>,
    now: u64,
    sender: Seq<u8>,
    receiver: Seq<u8>,
    amount: i128,
    token: Seq<u8>,
    hashlock: Seq<u8>,
    timelock: u64,
    safety_deposit: i128,
    id: Seq<u8>,
)
    ensures
        ({
            let (m1, l1) = create_next(
                m,
                l,
                caller,
                now,
                sender,
                receiver,
                amount,
                token,
                hashlock,
                timelock,
                safety_deposit,
            );
            m.store.contains_key(id) ==> m1.store.contains_key(id) && m1.store[id] == m.store[id]
        }),
{
}

/// A record that has left `Active` never changes again: a withdraw
/// rewrites only a record it found `Active`.
pub proof fn lemma_resolved_record_stable_withdraw(
    m: EngineV,
    l: BalanceMap,
    caller: Seq<u8>,
    now: u64,
    contract_id: Seq<u8>,
    preimage: Seq<u8>,
    id: Seq<u8>,
)
    ensures
        ({
            let (m1, l1) = withdraw_next(m, l, caller, now, contract_id, preimage);
            (m.store.contains_key(id) && m.store[id].status != HTLCStatus::Active)
                ==> m1.store.contains_key(id) && m1.store[id] == m.store[id]
        }),
{
}

/// A record that has left `Active` never changes again: a refund
/// rewrites only a record it found `Active`.
pub proof fn lemma_resolved_record_stable_refund(
    m: EngineV,
    l: BalanceMap,
    caller: Seq<u8>,
    now: u64,
    contract_id: Seq<u8>,
    id: Seq<u8>,
)
    ensures
        ({
            let (m1, l1) = refund_next(m, l, caller, now, contract_id);
            (m.store.contains_key(id) && m.store[id].status != HTLCStatus::Active)
                ==> m1.store.contains_key(id) && m1.store[id] == m.store[id]
        }),
{
}

} // verus!

