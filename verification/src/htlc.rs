//! The escrow engine: records, store, events, and the state machine.
//!
//! The engine owns a keyed collection of escrow records and an event
//! log, and moves value through a [`TokenLedger`]. Each operation runs
//! to completion: it either commits one record write (and, for the
//! terminal transitions, the value moves and one event), or it fails
//! with an [`EscrowError`] and commits nothing. The host is assumed to
//! serialize calls; the `locked` flag is a fail-closed self-check
//! against a transfer hook reentering the engine mid-transition, not a
//! mutual-exclusion primitive.

use vstd::prelude::*;
use crate::digest::{sha256_digest, sha256_of};
use crate::encode::{bytes_eq, copy_bytes};
use crate::errors::EscrowError;
use crate::id::{derive_id, generate_contract_id};
use crate::ledger::{
    apply_transfer, can_transfer, lemma_transfer_round_trip, BalanceMap, TokenLedger,
};
use crate::principal::Principal;

verus! {

/// Resolution state of an escrow record.
#[derive(Clone, Copy, Debug, PartialEq, Eq, Structural)]
pub enum HTLCStatus {
    /// Funds are held; either terminal transition is still possible.
    Active,
    /// The receiver claimed the funds by revealing the preimage.
    Withdrawn,
    /// The sender reclaimed the funds after the deadline.
    Refunded,
}

/// Storage key of an escrow record.
pub enum DataKey {
    /// The record stored under an escrow identifier.
    HTLCData(Vec<u8>),
}

impl View for DataKey {
    type V = Seq<u8>;

    open spec fn view(&self) -> Seq<u8> {
        match self {
            DataKey::HTLCData(id) => id@,
        }
    }
}

/// The mathematical value of an escrow record.
#[verifier::ext_equal]
pub struct HTLCDataV {
    pub contract_id: Seq<u8>,
    pub sender: Seq<u8>,
    pub receiver: Seq<u8>,
    pub amount: i128,
    pub token_address: Seq<u8>,
    pub hashlock: Seq<u8>,
    pub timelock: u64,
    pub timestamp: u64,
    pub safety_deposit: i128,
    pub status: HTLCStatus,
    pub locked: bool,
}

/// One escrow record: the sole persisted entity.
pub struct HTLCData {
    /// Primary key, derived from the other fields; never caller-chosen.
    pub contract_id: Vec<u8>,
    /// Funds the escrow; may reclaim at or after the deadline.
    pub sender: Principal,
    /// May claim before the deadline by revealing the secret.
    pub receiver: Principal,
    /// Principal value escrowed; strictly positive.
    pub amount: i128,
    /// The fungible asset escrowed.
    pub token_address: Principal,
    /// SHA-256 commitment to the secret.
    pub hashlock: Vec<u8>,
    /// Absolute instant at which claim ends and reclaim begins.
    pub timelock: u64,
    /// Creation instant; part of the identifier derivation.
    pub timestamp: u64,
    /// Additional stake, non-negative; returned to the sender on
    /// either terminal path.
    pub safety_deposit: i128,
    /// Current resolution state.
    pub status: HTLCStatus,
    /// True only mid-transition; a reentrancy self-check.
    pub locked: bool,
}

impl View for HTLCData {
    type V = HTLCDataV;

    open spec fn view(&self) -> HTLCDataV {
        HTLCDataV {
            contract_id: self.contract_id@,
            sender: self.sender@,
            receiver: self.receiver@,
            amount: self.amount,
            token_address: self.token_address@,
            hashlock: self.hashlock@,
            timelock: self.timelock,
            timestamp: self.timestamp,
            safety_deposit: self.safety_deposit,
            status: self.status,
            locked: self.locked,
        }
    }
}

impl HTLCData {
    /// A fresh record with the same value.
    pub fn snapshot(&self) -> (r: HTLCData)
        ensures
            r@ == self@,
    {
        let r = HTLCData {
            contract_id: copy_bytes(&self.contract_id),
            sender: self.sender.duplicate(),
            receiver: self.receiver.duplicate(),
            amount: self.amount,
            token_address: self.token_address.duplicate(),
            hashlock: copy_bytes(&self.hashlock),
            timelock: self.timelock,
            timestamp: self.timestamp,
            safety_deposit: self.safety_deposit,
            status: self.status,
            locked: self.locked,
        };
        assert(r@ =~= self@);
        r
    }
}

/// An invariant every record at rest satisfies.
pub open spec fn valid_record(r: HTLCDataV) -> bool {
    &&& r.amount > 0
    &&& r.safety_deposit >= 0
    &&& r.amount + r.safety_deposit <= i128::MAX as int
    &&& r.timelock > r.timestamp
    &&& !r.locked
    &&& r.contract_id.len() == 32
    &&& r.hashlock.len() == 32
}

/// A notification of a state transition, for off-engine observers.
pub enum EscrowEvent {
    /// An escrow was created.
    HTLCNew {
        contract_id: Vec<u8>,
        sender: Vec<u8>,
        receiver: Vec<u8>,
        amount: i128,
        hashlock: Vec<u8>,
        timelock: u64,
        safety_deposit: i128,
    },
    /// An escrow was claimed; the revealed secret is published so a
    /// mirrored escrow on another ledger can be completed with it.
    HTLCWithdraw { contract_id: Vec<u8>, preimage: Vec<u8> },
    /// An escrow was reclaimed after its deadline.
    HTLCRefund { contract_id: Vec<u8> },
}

/// The mathematical value of an event.
#[verifier::ext_equal]
pub enum EscrowEventV {
    HTLCNew {
        contract_id: Seq<u8>,
        sender: Seq<u8>,
        receiver: Seq<u8>,
        amount: i128,
        hashlock: Seq<u8>,
        timelock: u64,
        safety_deposit: i128,
    },
    HTLCWithdraw { contract_id: Seq<u8>, preimage: Seq<u8> },
    HTLCRefund { contract_id: Seq<u8> },
}

impl View for EscrowEvent {
    type V = EscrowEventV;

    open spec fn view(&self) -> EscrowEventV {
        match self {
            EscrowEvent::HTLCNew {
                contract_id,
                sender,
                receiver,
                amount,
                hashlock,
                timelock,
                safety_deposit,
            } => EscrowEventV::HTLCNew {
                contract_id: contract_id@,
                sender: sender@,
                receiver: receiver@,
                amount: *amount,
                hashlock: hashlock@,
                timelock: *timelock,
                safety_deposit: *safety_deposit,
            },
            EscrowEvent::HTLCWithdraw { contract_id, preimage } => EscrowEventV::HTLCWithdraw {
                contract_id: contract_id@,
                preimage: preimage@,
            },
            EscrowEvent::HTLCRefund { contract_id } => EscrowEventV::HTLCRefund {
                contract_id: contract_id@,
            },
        }
    }
}

/// The record collection as a map from identifier to record value.
spec fn store_map(s: Seq<HTLCData>) -> Map<Seq<u8>, HTLCDataV>
    decreases s.len(),
{
    if s.len() == 0 {
        Map::empty()
    } else {
        store_map(s.drop_last()).insert(s.last()@.contract_id, s.last()@)
    }
}

/// The persistent mapping from identifier to escrow record. Access is
/// mediated entirely through the engine.
pub struct EscrowStore {
    entries: Vec<HTLCData>,
}

impl View for EscrowStore {
    type V = Map<Seq<u8>, HTLCDataV>;

    closed spec fn view(&self) -> Map<Seq<u8>, HTLCDataV> {
        store_map(self.entries@)
    }
}

proof fn lemma_store_at_index(s: Seq<HTLCData>, i: int)
    requires
        0 <= i < s.len(),
        forall|p: int, q: int|
            0 <= p < q < s.len() ==> (#[trigger] s[p])@.contract_id != (#[trigger] s[q])@.contract_id,
    ensures
        store_map(s).contains_key(s[i]@.contract_id),
        store_map(s)[s[i]@.contract_id] == s[i]@,
    decreases s.len(),
{
    if i < s.len() - 1 {
        assert(s.last() == s[s.len() - 1]);
        assert(s.last()@.contract_id != s[i]@.contract_id);
        let t = s.drop_last();
        assert(t[i] == s[i]);
        lemma_store_at_index(t, i);
    }
}

proof fn lemma_store_absent(s: Seq<HTLCData>, id: Seq<u8>)
    requires
        forall|i: int| 0 <= i < s.len() ==> (#[trigger] s[i])@.contract_id != id,
    ensures
        !store_map(s).contains_key(id),
    decreases s.len(),
{
    if s.len() > 0 {
        assert(s.last() == s[s.len() - 1]);
        lemma_store_absent(s.drop_last(), id);
    }
}

proof fn lemma_store_update(s: Seq<HTLCData>, i: int, d: HTLCData)
    requires
        0 <= i < s.len(),
        forall|p: int, q: int|
            0 <= p < q < s.len() ==> (#[trigger] s[p])@.contract_id != (#[trigger] s[q])@.contract_id,
        d@.contract_id == s[i]@.contract_id,
    ensures
        store_map(s.update(i, d)) == store_map(s).insert(d@.contract_id, d@),
    decreases s.len(),
{
    let t = s.update(i, d);
    if i == s.len() - 1 {
        assert(t.last() == d);
        assert(t.drop_last() =~= s.drop_last());
        assert(store_map(t) == store_map(s.drop_last()).insert(d@.contract_id, d@));
        assert(store_map(s.drop_last()).insert(s.last()@.contract_id, s.last()@).insert(
            d@.contract_id,
            d@,
        ) =~= store_map(s.drop_last()).insert(d@.contract_id, d@));
    } else {
        assert(t.last() == s.last());
        assert(t.drop_last() =~= s.drop_last().update(i, d));
        assert(s.drop_last()[i] == s[i]);
        lemma_store_update(s.drop_last(), i, d);
        assert(s.last() == s[s.len() - 1]);
        assert(s.last()@.contract_id != d@.contract_id);
        assert(store_map(t) == store_map(s.drop_last()).insert(d@.contract_id, d@).insert(
            s.last()@.contract_id,
            s.last()@,
        ));
        assert(store_map(s.drop_last()).insert(d@.contract_id, d@).insert(
            s.last()@.contract_id,
            s.last()@,
        ) =~= store_map(s.drop_last()).insert(s.last()@.contract_id, s.last()@).insert(
            d@.contract_id,
            d@,
        ));
    }
}

impl EscrowStore {
    /// Record identifiers are unique.
    pub closed spec fn wf(self) -> bool {
        forall|p: int, q: int|
            0 <= p < q < self.entries@.len() ==> (#[trigger] self.entries@[p])@.contract_id != (
            #[trigger] self.entries@[q])@.contract_id
    }

    /// An empty store.
    pub fn new() -> (r: EscrowStore)
        ensures
            r.wf(),
            r@ == Map::<Seq<u8>, HTLCDataV>::empty(),
    {
        EscrowStore { entries: Vec::new() }
    }

    fn find_index(&self, key: &DataKey) -> (r: Option<usize>)
        ensures
            match r {
                Some(i) => i < self.entries@.len() && self.entries@[i as int]@.contract_id
                    == key@,
                None => forall|i: int|
                    0 <= i < self.entries@.len() ==> (#[trigger] self.entries@[i])@.contract_id
                        != key@,
            },
    {
        let DataKey::HTLCData(id) = key;
        assert(key@ == id@);
        let mut i: usize = 0;
        while i < self.entries.len()
            invariant
                i <= self.entries@.len(),
                key@ == id@,
                forall|j: int|
                    0 <= j < i ==> (#[trigger] self.entries@[j])@.contract_id != id@,
            decreases self.entries@.len() - i,
        {
            let e = &self.entries[i];
            if bytes_eq(&e.contract_id, id) {
                return Some(i);
            }
            i += 1;
        }
        None
    }

    /// Whether a record sits at this key.
    pub fn has(&self, key: &DataKey) -> (r: bool)
        requires
            self.wf(),
        ensures
            r == self@.contains_key(key@),
    {
        match self.find_index(key) {
            Some(i) => {
                proof {
                    lemma_store_at_index(self.entries@, i as int);
                }
                true
            },
            None => {
                proof {
                    lemma_store_absent(self.entries@, key@);
                }
                false
            },
        }
    }

    /// The record at this key, if any.
    pub fn get(&self, key: &DataKey) -> (r: Option<&HTLCData>)
        requires
            self.wf(),
        ensures
            match r {
                Some(d) => self@.contains_key(key@) && d@ == self@[key@],
                None => !self@.contains_key(key@),
            },
    {
        match self.find_index(key) {
            Some(i) => {
                proof {
                    lemma_store_at_index(self.entries@, i as int);
                }
                Some(&self.entries[i])
            },
            None => {
                proof {
                    lemma_store_absent(self.entries@, key@);
                }
                None
            },
        }
    }

    /// Writes a record under its own identifier, inserting or
    /// replacing.
    pub fn set(&mut self, record: HTLCData)
        requires
            old(self).wf(),
        ensures
            final(self).wf(),
            final(self)@ == old(self)@.insert(record@.contract_id, record@),
    {
        let key = DataKey::HTLCData(copy_bytes(&record.contract_id));
        match self.find_index(&key) {
            Some(i) => {
                let ghost s0 = self.entries@;
                self.entries[i] = record;
                proof {
                    lemma_store_update(s0, i as int, self.entries@[i as int]);
                }
            },
            None => {
                let ghost s0 = self.entries@;
                proof {
                    lemma_store_absent(s0, record@.contract_id);
                }
                self.entries.push(record);
                proof {
                    let s1 = self.entries@;
                    assert(s1.drop_last() =~= s0);
                    assert(s1.last() == s1[s0.len() as int]);
                }
            },
        }
    }
}

/// The mathematical value of the whole engine: who holds custody, the
/// record map, and the events published so far.
#[verifier::ext_equal]
pub struct EngineV {
    pub custody: Seq<u8>,
    pub store: Map<Seq<u8>, HTLCDataV>,
    pub events: Seq<EscrowEventV>,
}

/// Every record at rest is valid and sits under its own identifier.
pub open spec fn engine_inv(m: EngineV) -> bool {
    forall|id: Seq<u8>|
        m.store.contains_key(id) ==> valid_record(#[trigger] m.store[id]) && m.store[id].contract_id
            == id
}

/// Whether the ledger can fund a creation: the principal moves first,
/// then a positive safety deposit, both from the sender into custody,
/// and their total is representable.
pub open spec fn create_funding_ok(
    l: BalanceMap,
    token: Seq<u8>,
    sender: Seq<u8>,
    custody: Seq<u8>,
    amount: i128,
    safety_deposit: i128,
) -> bool {
    &&& amount + safety_deposit <= i128::MAX as int
    &&& can_transfer(l, token, sender, custody, amount as int)
    &&& (safety_deposit > 0 ==> can_transfer(
        apply_transfer(l, token, sender, custody, amount as int),
        token,
        sender,
        custody,
        safety_deposit as int,
    ))
}

/// The record a successful creation persists.
pub open spec fn create_record(
    now: u64,
    sender: Seq<u8>,
    receiver: Seq<u8>,
    amount: i128,
    token: Seq<u8>,
    hashlock: Seq<u8>,
    timelock: u64,
    safety_deposit: i128,
) -> HTLCDataV {
    HTLCDataV {
        contract_id: derive_id(sender, receiver, amount, hashlock, timelock, now),
        sender,
        receiver,
        amount,
        token_address: token,
        hashlock,
        timelock,
        timestamp: now,
        safety_deposit,
        status: HTLCStatus::Active,
        locked: false,
    }
}

/// What a creation returns, for every input.
pub open spec fn create_outcome(
    m: EngineV,
    l: BalanceMap,
    caller: Seq<u8>,
    now: u64,
    sender: Seq<u8>,
    receiver: Seq<u8>,
    amount: i128,
    token: Seq<u8>,
    hashlock: Seq<u8>,
    timelock: u64,
    safety_deposit: i128,
) -> Result<Seq<u8>, EscrowError> {
    let id = derive_id(sender, receiver, amount, hashlock, timelock, now);
    if caller != sender {
        Err(EscrowError::Unauthorized)
    } else if amount <= 0 {
        Err(EscrowError::InvalidAmount)
    } else if safety_deposit < 0 {
        Err(EscrowError::InvalidSafetyDeposit)
    } else if timelock <= now {
        Err(EscrowError::InvalidDeadline)
    } else if m.store.contains_key(id) {
        Err(EscrowError::AlreadyExists)
    } else if !create_funding_ok(l, token, sender, m.custody, amount, safety_deposit) {
        Err(EscrowError::InsufficientBalance)
    } else {
        Ok(id)
    }
}

/// The ledger after a funded creation.
pub open spec fn create_ledger_next(
    l: BalanceMap,
    token: Seq<u8>,
    sender: Seq<u8>,
    custody: Seq<u8>,
    amount: i128,
    safety_deposit: i128,
) -> BalanceMap {
    let l1 = apply_transfer(l, token, sender, custody, amount as int);
    if safety_deposit > 0 {
        apply_transfer(l1, token, sender, custody, safety_deposit as int)
    } else {
        l1
    }
}

/// The engine and ledger after a creation; unchanged unless it
/// succeeds.
pub open spec fn create_next(
    m: EngineV,
    l: BalanceMap,
    caller: Seq<u8>,
    now: u64,
    sender: Seq<u8>,
    receiver: Seq<u8>,
    amount: i128,
    token: Seq<u8>,
    hashlock: Seq<u8>,
    timelock: u64,
    safety_deposit: i128,
) -> (EngineV, BalanceMap) {
    if create_outcome(
        m,
        l,
        caller,
        now,
        sender,
        receiver,
        amount,
        token,
        hashlock,
        timelock,
        safety_deposit,
    ) is Ok {
        let rec = create_record(now, sender, receiver, amount, token, hashlock, timelock, safety_deposit);
        let ev = EscrowEventV::HTLCNew {
            contract_id: rec.contract_id,
            sender,
            receiver,
            amount,
            hashlock,
            timelock,
            safety_deposit,
        };
        (
            EngineV {
                custody: m.custody,
                store: m.store.insert(rec.contract_id, rec),
                events: m.events.push(ev),
            },
            create_ledger_next(l, token, sender, m.custody, amount, safety_deposit),
        )
    } else {
        (m, l)
    }
}

/// Whether the ledger can fund a withdraw: the principal moves from
/// custody to the receiver, then a positive safety deposit from
/// custody back to the sender.
pub open spec fn withdraw_funding_ok(l: BalanceMap, rec: HTLCDataV, custody: Seq<u8>) -> bool {
    &&& can_transfer(l, rec.token_address, custody, rec.receiver, rec.amount as int)
    &&& (rec.safety_deposit > 0 ==> can_transfer(
        apply_transfer(l, rec.token_address, custody, rec.receiver, rec.amount as int),
        rec.token_address,
        custody,
        rec.sender,
        rec.safety_deposit as int,
    ))
}

/// What a withdraw returns, for every input.
pub open spec fn withdraw_outcome(
    m: EngineV,
    l: BalanceMap,
    caller: Seq<u8>,
    now: u64,
    contract_id: Seq<u8>,
    preimage: Seq<u8>,
) -> Result<(), EscrowError> {
    if !m.store.contains_key(contract_id) {
        Err(EscrowError::NotFound)
    } else {
        let rec = m.store[contract_id];
        if rec.locked {
            Err(EscrowError::ReentrancyDetected)
        } else if caller != rec.receiver {
            Err(EscrowError::Unauthorized)
        } else if rec.status == HTLCStatus::Withdrawn {
            Err(EscrowError::AlreadyWithdrawn)
        } else if rec.status == HTLCStatus::Refunded {
            Err(EscrowError::AlreadyRefunded)
        } else if now >= rec.timelock {
            Err(EscrowError::DeadlineExpired)
        } else if sha256_of(preimage) != rec.hashlock {
            Err(EscrowError::InvalidPreimage)
        } else if !withdraw_funding_ok(l, rec, m.custody) {
            Err(EscrowError::InsufficientBalance)
        } else {
            Ok(())
        }
    }
}

/// The ledger after a funded withdraw.
pub open spec fn withdraw_ledger_next(l: BalanceMap, rec: HTLCDataV, custody: Seq<u8>) -> BalanceMap {
    let l1 = apply_transfer(l, rec.token_address, custody, rec.receiver, rec.amount as int);
    if rec.safety_deposit > 0 {
        apply_transfer(l1, rec.token_address, custody, rec.sender, rec.safety_deposit as int)
    } else {
        l1
    }
}

/// The engine and ledger after a withdraw; unchanged unless it
/// succeeds.
pub open spec fn withdraw_next(
    m: EngineV,
    l: BalanceMap,
    caller: Seq<u8>,
    now: u64,
    contract_id: Seq<u8>,
    preimage: Seq<u8>,
) -> (EngineV, BalanceMap) {
    if withdraw_outcome(m, l, caller, now, contract_id, preimage) is Ok {
        let rec = m.store[contract_id];
        let rec2 = HTLCDataV { status: HTLCStatus::Withdrawn, ..rec };
        (
            EngineV {
                custody: m.custody,
                store: m.store.insert(contract_id, rec2),
                events: m.events.push(EscrowEventV::HTLCWithdraw { contract_id, preimage }),
            },
            withdraw_ledger_next(l, rec, m.custody),
        )
    } else {
        (m, l)
    }
}

/// Whether the ledger can fund a refund: principal and safety deposit
/// return to the sender in one combined move.
pub open spec fn refund_funding_ok(l: BalanceMap, rec: HTLCDataV, custody: Seq<u8>) -> bool {
    can_transfer(l, rec.token_address, custody, rec.sender, rec.amount + rec.safety_deposit)
}

/// What a refund returns, for every input.
pub open spec fn refund_outcome(
    m: EngineV,
    l: BalanceMap,
    caller: Seq<u8>,
    now: u64,
    contract_id: Seq<u8>,
) -> Result<(), EscrowError> {
    if !m.store.contains_key(contract_id) {
        Err(EscrowError::NotFound)
    } else {
        let rec = m.store[contract_id];
        if rec.locked {
            Err(EscrowError::ReentrancyDetected)
        } else if caller != rec.sender {
            Err(EscrowError::Unauthorized)
        } else if rec.status == HTLCStatus::Withdrawn {
            Err(EscrowError::AlreadyWithdrawn)
        } else if rec.status == HTLCStatus::Refunded {
            Err(EscrowError::AlreadyRefunded)
        } else if now < rec.timelock {
            Err(EscrowError::DeadlineNotExpired)
        } else if !refund_funding_ok(l, rec, m.custody) {
            Err(EscrowError::InsufficientBalance)
        } else {
            Ok(())
        }
    }
}

/// The engine and ledger after a refund; unchanged unless it
/// succeeds.
pub open spec fn refund_next(
    m: EngineV,
    l: BalanceMap,
    caller: Seq<u8>,
    now: u64,
    contract_id: Seq<u8>,
) -> (EngineV, BalanceMap) {
    if refund_outcome(m, l, caller, now, contract_id) is Ok {
        let rec = m.store[contract_id];
        let rec2 = HTLCDataV { status: HTLCStatus::Refunded, ..rec };
        (
            EngineV {
                custody: m.custody,
                store: m.store.insert(contract_id, rec2),
                events: m.events.push(EscrowEventV::HTLCRefund { contract_id }),
            },
            apply_transfer(
                l,
                rec.token_address,
                m.custody,
                rec.sender,
                rec.amount + rec.safety_deposit,
            ),
        )
    } else {
        (m, l)
    }
}

/// The escrow engine: a state machine over the record store, fed by an
/// injected clock reading (`now`), an authenticated `caller`, and a
/// transfer capability (`ledger`). The host is assumed to run each
/// operation to completion.
pub struct HTLCContract {
    custody: Principal,
    store: EscrowStore,
    events: Vec<EscrowEvent>,
}

impl View for HTLCContract {
    type V = EngineV;

    closed spec fn view(&self) -> EngineV {
        EngineV {
            custody: self.custody@,
            store: self.store@,
            events: self.events@.map_values(|e: EscrowEvent| e@),
        }
    }
}

impl HTLCContract {
    /// The store is keyed consistently and every record is valid.
    pub closed spec fn wf(self) -> bool {
        &&& self.store.wf()
        &&& engine_inv(self@)
    }

    /// A well-formed engine satisfies the record invariant.
    pub proof fn lemma_wf_inv(self)
        requires
            self.wf(),
        ensures
            engine_inv(self@),
    {
    }

    /// A fresh engine holding custody under the given principal, with
    /// no records and no events.
    pub fn new(custody: Principal) -> (r: HTLCContract)
        ensures
            r.wf(),
            r@.custody == custody@,
            r@.store == Map::<Seq<u8>, HTLCDataV>::empty(),
            r@.events == Seq::<EscrowEventV>::empty(),
    {
        let r = HTLCContract { custody, store: EscrowStore::new(), events: Vec::new() };
        proof {
            assert(r@.events =~= Seq::<EscrowEventV>::empty());
        }
        r
    }

    /// The principal under which the engine holds escrowed value.
    pub fn custody(&self) -> (r: &Principal)
        ensures
            r@ == self@.custody,
    {
        &self.custody
    }

    /// The events published so far, oldest first.
    pub fn event_log(&self) -> (r: &Vec<EscrowEvent>)
        ensures
            r@.map_values(|e: EscrowEvent| e@) == self@.events,
    {
        &self.events
    }

    /// Loads the record at `contract_id`.
    fn get_htlc_data(&self, contract_id: &Vec<u8>) -> (r: Result<HTLCData, EscrowError>)
        requires
            self.wf(),
        ensures
            match r {
                Ok(d) => self@.store.contains_key(contract_id@) && d@ == self@.store[contract_id@],
                Err(e) => !self@.store.contains_key(contract_id@) && e == EscrowError::NotFound,
            },
    {
        let key = DataKey::HTLCData(copy_bytes(contract_id));
        match self.store.get(&key) {
            Some(d) => Ok(d.snapshot()),
            None => Err(EscrowError::NotFound),
        }
    }

    /// The record at `contract_id`; `NotFound` if absent. Reads only.
    pub fn get_htlc(&self, contract_id: &Vec<u8>) -> (r: Result<HTLCData, EscrowError>)
        requires
            self.wf(),
        ensures
            match r {
                Ok(d) => self@.store.contains_key(contract_id@) && d@ == self@.store[contract_id@],
                Err(e) => !self@.store.contains_key(contract_id@) && e == EscrowError::NotFound,
            },
    {
        self.get_htlc_data(contract_id)
    }

    /// Whether a record sits at `contract_id`. Reads only.
    pub fn contract_exists(&self, contract_id: &Vec<u8>) -> (r: bool)
        requires
            self.wf(),
        ensures
            r == self@.store.contains_key(contract_id@),
    {
        let key = DataKey::HTLCData(copy_bytes(contract_id));
        self.store.has(&key)
    }

    /// Creates an escrow: validates the parameters, derives the
    /// identifier from them and the injected clock reading `now`,
    /// moves `amount` and then any positive `safety_deposit` from the
    /// sender into custody, persists the record as `Active`, and
    /// publishes a creation event. On any failure nothing is committed
    /// and nothing moves. `caller` is the already-authenticated
    /// principal invoking the engine; anyone but `sender` is rejected.
    pub fn create_htlc(
        &mut self,
        ledger: &mut TokenLedger,
        caller: &Principal,
        now: u64,
        sender: &Principal,
        receiver: &Principal,
        amount: i128,
        token_address: &Principal,
        hashlock: &Vec<u8>,
        timelock: u64,
        safety_deposit: i128,
    ) -> (r: Result<Vec<u8>, EscrowError>)
        requires
            old(self).wf(),
            old(ledger).wf(),
            hashlock@.len() == 32,
        ensures
            final(self).wf(),
            final(ledger).wf(),
            final(self)@ == create_next(
                old(self)@,
                old(ledger)@,
                caller@,
                now,
                sender@,
                receiver@,
                amount,
                token_address@,
                hashlock@,
                timelock,
                safety_deposit,
            ).0,
            final(ledger)@ == create_next(
                old(self)@,
                old(ledger)@,
                caller@,
                now,
                sender@,
                receiver@,
                amount,
                token_address@,
                hashlock@,
                timelock,
                safety_deposit,
            ).1,
            match r {
                Ok(id) => Ok::<Seq<u8>, EscrowError>(id@) == create_outcome(
                    old(self)@,
                    old(ledger)@,
                    caller@,
                    now,
                    sender@,
                    receiver@,
                    amount,
                    token_address@,
                    hashlock@,
                    timelock,
                    safety_deposit,
                ) && id@.len() == 32,
                Err(e) => Err::<Seq<u8>, EscrowError>(e) == create_outcome(
                    old(self)@,
                    old(ledger)@,
                    caller@,
                    now,
                    sender@,
                    receiver@,
                    amount,
                    token_address@,
                    hashlock@,
                    timelock,
                    safety_deposit,
                ),
            },
    {
        let ghost m0 = self@;
        let ghost l0 = ledger@;
        if !(caller == sender) {
            return Err(EscrowError::Unauthorized);
        }
        if amount <= 0 {
            return Err(EscrowError::InvalidAmount);
        }
        if safety_deposit < 0 {
            return Err(EscrowError::InvalidSafetyDeposit);
        }
        if timelock <= now {
            return Err(EscrowError::InvalidDeadline);
        }
        let contract_id = generate_contract_id(sender, receiver, amount, hashlock, timelock, now);
        let key = DataKey::HTLCData(copy_bytes(&contract_id));
        if self.store.has(&key) {
            return Err(EscrowError::AlreadyExists);
        }
        if safety_deposit > 0 && amount > i128::MAX - safety_deposit {
            return Err(EscrowError::InsufficientBalance);
        }
        match ledger.transfer(token_address, sender, &self.custody, amount) {
            Ok(()) => {},
            Err(_) => {
                return Err(EscrowError::InsufficientBalance);
            },
        }
        if safety_deposit > 0 {
            match ledger.transfer(token_address, sender, &self.custody, safety_deposit) {
                Ok(()) => {},
                Err(_) => {
                    proof {
                        old(ledger).lemma_in_range((token_address@, sender@));
                        old(ledger).lemma_in_range((token_address@, self.custody@));
                        old(ledger).lemma_dom((token_address@, sender@));
                        old(ledger).lemma_dom((token_address@, self.custody@));
                        lemma_transfer_round_trip(
                            l0,
                            token_address@,
                            sender@,
                            self.custody@,
                            amount as int,
                        );
                    }
                    match ledger.transfer(token_address, &self.custody, sender, amount) {
                        Ok(()) => {},
                        Err(_) => {
                            // Reversing a move that just succeeded
                            // cannot fail: `lemma_transfer_round_trip`.
                            proof {
                                assert(false);
                            }
                        },
                    }
                    assert(ledger@ == l0);
                    return Err(EscrowError::InsufficientBalance);
                },
            }
        }
        let record = HTLCData {
            contract_id: copy_bytes(&contract_id),
            sender: sender.duplicate(),
            receiver: receiver.duplicate(),
            amount,
            token_address: token_address.duplicate(),
            hashlock: copy_bytes(hashlock),
            timelock,
            timestamp: now,
            safety_deposit,
            status: HTLCStatus::Active,
            locked: false,
        };
        let ghost rec_v = record@;
        self.store.set(record);
        self.events.push(
            EscrowEvent::HTLCNew {
                contract_id: copy_bytes(&contract_id),
                sender: copy_bytes(sender.as_bytes()),
                receiver: copy_bytes(receiver.as_bytes()),
                amount,
                hashlock: copy_bytes(hashlock),
                timelock,
                safety_deposit,
            },
        );
        proof {
            let spec_rec = create_record(
                now,
                sender@,
                receiver@,
                amount,
                token_address@,
                hashlock@,
                timelock,
                safety_deposit,
            );
            assert(rec_v =~= spec_rec);
            let (m2, l2) = create_next(
                m0,
                l0,
                caller@,
                now,
                sender@,
                receiver@,
                amount,
                token_address@,
                hashlock@,
                timelock,
                safety_deposit,
            );
            assert(self@.events =~= m2.events);
            assert(self@ =~= m2);
            assert(ledger@ == l2);
            assert forall|id: Seq<u8>| self@.store.contains_key(id) implies valid_record(
                #[trigger] self@.store[id],
            ) && self@.store[id].contract_id == id by {
                if id != spec_rec.contract_id {
                    assert(m0.store.contains_key(id));
                }
            }
        }
        Ok(contract_id)
    }

    /// Claims an escrow by revealing the preimage of its hashlock.
    /// Only the receiver may claim, only while the record is `Active`,
    /// only strictly before the deadline, and only with a secret whose
    /// SHA-256 digest equals the hashlock. On success the principal
    /// moves to the receiver, any positive safety deposit returns to
    /// the sender, the record becomes `Withdrawn`, and an event
    /// publishing the revealed secret is appended. On any failure
    /// nothing is committed and nothing moves.
    pub fn withdraw(
        &mut self,
        ledger: &mut TokenLedger,
        caller: &Principal,
        now: u64,
        contract_id: &Vec<u8>,
        preimage: &Vec<u8>,
    ) -> (r: Result<(), EscrowError>)
        requires
            old(self).wf(),
            old(ledger).wf(),
        ensures
            final(self).wf(),
            final(ledger).wf(),
            final(self)@ == withdraw_next(
                old(self)@,
                old(ledger)@,
                caller@,
                now,
                contract_id@,
                preimage@,
            ).0,
            final(ledger)@ == withdraw_next(
                old(self)@,
                old(ledger)@,
                caller@,
                now,
                contract_id@,
                preimage@,
            ).1,
            r == withdraw_outcome(old(self)@, old(ledger)@, caller@, now, contract_id@, preimage@),
    {
        let ghost m0 = self@;
        let ghost l0 = ledger@;
        let htlc_data = match self.get_htlc_data(contract_id) {
            Ok(d) => d,
            Err(e) => {
                return Err(e);
            },
        };
        proof {
            assert(valid_record(m0.store[contract_id@]));
        }
        if htlc_data.locked {
            return Err(EscrowError::ReentrancyDetected);
        }
        if !(caller == &htlc_data.receiver) {
            return Err(EscrowError::Unauthorized);
        }
        match htlc_data.status {
            HTLCStatus::Active => {},
            HTLCStatus::Withdrawn => {
                return Err(EscrowError::AlreadyWithdrawn);
            },
            HTLCStatus::Refunded => {
                return Err(EscrowError::AlreadyRefunded);
            },
        }
        if now >= htlc_data.timelock {
            return Err(EscrowError::DeadlineExpired);
        }
        let computed_hash = sha256_digest(preimage);
        if !bytes_eq(&computed_hash, &htlc_data.hashlock) {
            return Err(EscrowError::InvalidPreimage);
        }
        // The reentrancy self-check is persisted strictly before any
        // value moves, so a transfer hook that reenters the engine
        // observes the lock and fails closed.
        let mut locked_rec = htlc_data.snapshot();
        locked_rec.locked = true;
        self.store.set(locked_rec);
        match ledger.transfer(
            &htlc_data.token_address,
            &self.custody,
            &htlc_data.receiver,
            htlc_data.amount,
        ) {
            Ok(()) => {},
            Err(_) => {
                let restored = htlc_data.snapshot();
                self.store.set(restored);
                proof {
                    assert(self@.store =~= m0.store);
                    assert(self@ =~= m0);
                }
                return Err(EscrowError::InsufficientBalance);
            },
        }
        if htlc_data.safety_deposit > 0 {
            match ledger.transfer(
                &htlc_data.token_address,
                &self.custody,
                &htlc_data.sender,
                htlc_data.safety_deposit,
            ) {
                Ok(()) => {},
                Err(_) => {
                    proof {
                        old(ledger).lemma_in_range((htlc_data.token_address@, self.custody@));
                        old(ledger).lemma_in_range((htlc_data.token_address@, htlc_data.receiver@));
                        old(ledger).lemma_dom((htlc_data.token_address@, self.custody@));
                        old(ledger).lemma_dom((htlc_data.token_address@, htlc_data.receiver@));
                        lemma_transfer_round_trip(
                            l0,
                            htlc_data.token_address@,
                            self.custody@,
                            htlc_data.receiver@,
                            htlc_data.amount as int,
                        );
                    }
                    match ledger.transfer(
                        &htlc_data.token_address,
                        &htlc_data.receiver,
                        &self.custody,
                        htlc_data.amount,
                    ) {
                        Ok(()) => {},
                        Err(_) => {
                            // Reversing a move that just succeeded
                            // cannot fail: `lemma_transfer_round_trip`.
                            proof {
                                assert(false);
                            }
                        },
                    }
                    let restored = htlc_data.snapshot();
                    self.store.set(restored);
                    proof {
                        assert(ledger@ == l0);
                        assert(self@.store =~= m0.store);
                        assert(self@ =~= m0);
                    }
                    return Err(EscrowError::InsufficientBalance);
                },
            }
        }
        let mut final_rec = htlc_data.snapshot();
        final_rec.status = HTLCStatus::Withdrawn;
        final_rec.locked = false;
        let ghost final_v = final_rec@;
        self.store.set(final_rec);
        self.events.push(
            EscrowEvent::HTLCWithdraw {
                contract_id: copy_bytes(contract_id),
                preimage: copy_bytes(preimage),
            },
        );
        proof {
            let rec = m0.store[contract_id@];
            assert(final_v =~= HTLCDataV { status: HTLCStatus::Withdrawn, ..rec });
            let (m2, l2) = withdraw_next(m0, l0, caller@, now, contract_id@, preimage@);
            assert(self@.events =~= m2.events);
            assert(self@ =~= m2);
            assert(ledger@ == l2);
            assert forall|id: Seq<u8>| self@.store.contains_key(id) implies valid_record(
                #[trigger] self@.store[id],
            ) && self@.store[id].contract_id == id by {
                if id != contract_id@ {
                    assert(m0.store.contains_key(id));
                }
            }
        }
        Ok(())
    }

    /// Reclaims an escrow after its deadline. Only the sender may
    /// reclaim, only while the record is `Active`, and only at or
    /// after the deadline; no preimage is needed. On success the
    /// principal and the safety deposit return to the sender in one
    /// combined move, the record becomes `Refunded`, and an event is
    /// appended. On any failure nothing is committed and nothing
    /// moves.
    pub fn refund(
        &mut self,
        ledger: &mut TokenLedger,
        caller: &Principal,
        now: u64,
        contract_id: &Vec<u8>,
    ) -> (r: Result<(), EscrowError>)
        requires
            old(self).wf(),
            old(ledger).wf(),
        ensures
            final(self).wf(),
            final(ledger).wf(),
            final(self)@ == refund_next(old(self)@, old(ledger)@, caller@, now, contract_id@).0,
            final(ledger)@ == refund_next(old(self)@, old(ledger)@, caller@, now, contract_id@).1,
            r == refund_outcome(old(self)@, old(ledger)@, caller@, now, contract_id@),
    {
        let ghost m0 = self@;
        let ghost l0 = ledger@;
        let htlc_data = match self.get_htlc_data(contract_id) {
            Ok(d) => d,
            Err(e) => {
                return Err(e);
            },
        };
        proof {
            assert(valid_record(m0.store[contract_id@]));
        }
        if htlc_data.locked {
            return Err(EscrowError::ReentrancyDetected);
        }
        if !(caller == &htlc_data.sender) {
            return Err(EscrowError::Unauthorized);
        }
        match htlc_data.status {
            HTLCStatus::Active => {},
            HTLCStatus::Withdrawn => {
                return Err(EscrowError::AlreadyWithdrawn);
            },
            HTLCStatus::Refunded => {
                return Err(EscrowError::AlreadyRefunded);
            },
        }
        if now < htlc_data.timelock {
            return Err(EscrowError::DeadlineNotExpired);
        }
        // The reentrancy self-check is persisted strictly before any
        // value moves.
        let mut locked_rec = htlc_data.snapshot();
        locked_rec.locked = true;
        self.store.set(locked_rec);
        let total = htlc_data.amount + htlc_data.safety_deposit;
        match ledger.transfer(&htlc_data.token_address, &self.custody, &htlc_data.sender, total) {
            Ok(()) => {},
            Err(_) => {
                let restored = htlc_data.snapshot();
                self.store.set(restored);
                proof {
                    assert(self@.store =~= m0.store);
                    assert(self@ =~= m0);
                }
                return Err(EscrowError::InsufficientBalance);
            },
        }
        let mut final_rec = htlc_data.snapshot();
        final_rec.status = HTLCStatus::Refunded;
        final_rec.locked = false;
        let ghost final_v = final_rec@;
        self.store.set(final_rec);
        self.events.push(EscrowEvent::HTLCRefund { contract_id: copy_bytes(contract_id) });
        proof {
            let rec = m0.store[contract_id@];
            assert(final_v =~= HTLCDataV { status: HTLCStatus::Refunded, ..rec });
            let (m2, l2) = refund_next(m0, l0, caller@, now, contract_id@);
            assert(self@.events =~= m2.events);
            assert(self@ =~= m2);
            assert(ledger@ == l2);
            assert forall|id: Seq<u8>| self@.store.contains_key(id) implies valid_record(
                #[trigger] self@.store[id],
            ) && self@.store[id].contract_id == id by {
                if id != contract_id@ {
                    assert(m0.store.contains_key(id));
                }
            }
        }
        Ok(())
    }

    /// The status of the record at `contract_id`; `NotFound` if
    /// absent. Reads only.
    pub fn get_status(&self, contract_id: &Vec<u8>) -> (r: Result<HTLCStatus, EscrowError>)
        requires
            self.wf(),
        ensures
            match r {
                Ok(s) => self@.store.contains_key(contract_id@) && s == self@.store[
                    contract_id@].status,
                Err(e) => !self@.store.contains_key(contract_id@) && e == EscrowError::NotFound,
            },
    {
        match self.get_htlc_data(contract_id) {
            Ok(d) => Ok(d.status),
            Err(e) => Err(e),
        }
    }
}

} // verus!
