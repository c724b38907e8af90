//! The engine's model of the external transfer capability.
//!
//! The host ledger moves value between custody accounts; the engine
//! only demands the contract stated here: `transfer` moves `amount` of
//! `asset` from one owner to another, fails without any effect when the
//! source balance is insufficient (or the destination would overflow
//! the signed 128-bit width), and balances never go negative. A ledger
//! is viewed as a total map from `(asset, owner)` to a balance, zero
//! where no value was ever held.

use vstd::prelude::*;
use crate::encode::bytes_eq;
use crate::errors::EscrowError;
use crate::principal::Principal;

verus! {

/// A balance map: `(asset encoding, owner encoding)` to balance.
pub type BalanceMap = Map<(Seq<u8>, Seq<u8>), int>;

/// Whether `amount` of `asset` can move from `from` to `to` under `m`.
pub open spec fn can_transfer(
    m: BalanceMap,
    asset: Seq<u8>,
    from: Seq<u8>,
    to: Seq<u8>,
    amount: int,
) -> bool {
    &&& 0 <= amount
    &&& amount <= m[(asset, from)]
    &&& (from == to || m[(asset, to)] + amount <= i128::MAX as int)
}

/// The balance map after such a move.
pub open spec fn apply_transfer(
    m: BalanceMap,
    asset: Seq<u8>,
    from: Seq<u8>,
    to: Seq<u8>,
    amount: int,
) -> BalanceMap {
    if from == to {
        m
    } else {
        m.insert((asset, from), m[(asset, from)] - amount).insert(
            (asset, to),
            m[(asset, to)] + amount,
        )
    }
}

/// Undoing a move restores the ledger: the reverse transfer is always
/// possible and composes with the forward one to the identity.
pub proof fn lemma_transfer_round_trip(
    l: BalanceMap,
    asset: Seq<u8>,
    from: Seq<u8>,
    to: Seq<u8>,
    amount: int,
)
    requires
        can_transfer(l, asset, from, to, amount),
        0 <= l[(asset, to)],
        l[(asset, from)] <= i128::MAX as int,
        l.dom().contains((asset, from)),
        l.dom().contains((asset, to)),
    ensures
        can_transfer(apply_transfer(l, asset, from, to, amount), asset, to, from, amount),
        apply_transfer(apply_transfer(l, asset, from, to, amount), asset, to, from, amount) == l,
{
    if from != to {
        let l1 = apply_transfer(l, asset, from, to, amount);
        assert(l1[(asset, to)] == l[(asset, to)] + amount);
        assert(l1[(asset, from)] == l[(asset, from)] - amount);
        let l2 = apply_transfer(l1, asset, to, from, amount);
        assert(l2 =~= l);
    }
}

struct BalanceEntry {
    asset: Principal,
    owner: Principal,
    amount: i128,
}

/// The key a balance entry sits under.
spec fn entry_key(e: BalanceEntry) -> (Seq<u8>, Seq<u8>) {
    (e.asset@, e.owner@)
}

/// The balance recorded for `k` in a list of entries; zero if absent.
spec fn balance_in(s: Seq<BalanceEntry>, k: (Seq<u8>, Seq<u8>)) -> int
    decreases s.len(),
{
    if s.len() == 0 {
        0
    } else if entry_key(s.last()) == k {
        s.last().amount as int
    } else {
        balance_in(s.drop_last(), k)
    }
}

/// A keyed collection of non-negative balances.
pub struct TokenLedger {
    entries: Vec<BalanceEntry>,
}

impl View for TokenLedger {
    type V = BalanceMap;

    closed spec fn view(&self) -> BalanceMap {
        Map::new(|k: (Seq<u8>, Seq<u8>)| true, |k: (Seq<u8>, Seq<u8>)| balance_in(self.entries@, k))
    }
}

proof fn lemma_balance_at_index(s: Seq<BalanceEntry>, i: int)
    requires
        0 <= i < s.len(),
        forall|p: int, q: int|
            0 <= p < q < s.len() ==> entry_key(#[trigger] s[p]) != entry_key(#[trigger] s[q]),
    ensures
        balance_in(s, entry_key(s[i])) == s[i].amount as int,
    decreases s.len(),
{
    if i == s.len() - 1 {
        assert(entry_key(s.last()) == entry_key(s[i]));
    } else {
        assert(entry_key(s.last()) != entry_key(s[i]));
        let t = s.drop_last();
        assert(t[i] == s[i]);
        lemma_balance_at_index(t, i);
    }
}

proof fn lemma_balance_absent(s: Seq<BalanceEntry>, k: (Seq<u8>, Seq<u8>))
    requires
        forall|i: int| 0 <= i < s.len() ==> entry_key(#[trigger] s[i]) != k,
    ensures
        balance_in(s, k) == 0,
    decreases s.len(),
{
    if s.len() > 0 {
        assert(entry_key(s.last()) != k);
        lemma_balance_absent(s.drop_last(), k);
    }
}

proof fn lemma_balance_update(s: Seq<BalanceEntry>, i: int, e: BalanceEntry, k: (Seq<u8>, Seq<u8>))
    requires
        0 <= i < s.len(),
        entry_key(e) == entry_key(s[i]),
        entry_key(e) != k,
    ensures
        balance_in(s.update(i, e), k) == balance_in(s, k),
    decreases s.len(),
{
    let t = s.update(i, e);
    if i == s.len() - 1 {
        assert(t.last() == e);
        assert(t.drop_last() =~= s.drop_last());
    } else {
        assert(t.last() == s.last());
        assert(t.drop_last() =~= s.drop_last().update(i, e));
        assert(s.drop_last()[i] == s[i]);
        lemma_balance_update(s.drop_last(), i, e, k);
    }
}

impl TokenLedger {
    /// Entry keys are unique and every balance is non-negative.
    pub closed spec fn wf(self) -> bool {
        &&& forall|p: int, q: int|
            0 <= p < q < self.entries@.len() ==> entry_key(#[trigger] self.entries@[p])
                != entry_key(#[trigger] self.entries@[q])
        &&& forall|i: int| 0 <= i < self.entries@.len() ==> (#[trigger] self.entries@[i]).amount >= 0
    }

    /// In a well-formed ledger every balance is a representable,
    /// non-negative amount.
    pub proof fn lemma_in_range(self, k: (Seq<u8>, Seq<u8>))
        requires
            self.wf(),
        ensures
            0 <= self@[k] <= i128::MAX as int,
    {
        Self::lemma_balance_in_nonneg(self.entries@, k);
        Self::lemma_balance_in_le_max(self.entries@, k);
    }

    /// A ledger's view is a total map: every key has a balance.
    pub proof fn lemma_dom(self, k: (Seq<u8>, Seq<u8>))
        ensures
            self@.dom().contains(k),
    {
    }

    proof fn lemma_balance_in_le_max(s: Seq<BalanceEntry>, k: (Seq<u8>, Seq<u8>))
        ensures
            balance_in(s, k) <= i128::MAX as int,
        decreases s.len(),
    {
        if s.len() > 0 {
            Self::lemma_balance_in_le_max(s.drop_last(), k);
        }
    }

    proof fn lemma_balance_in_nonneg(s: Seq<BalanceEntry>, k: (Seq<u8>, Seq<u8>))
        requires
            forall|i: int| 0 <= i < s.len() ==> (#[trigger] s[i]).amount >= 0,
        ensures
            balance_in(s, k) >= 0,
        decreases s.len(),
    {
        if s.len() > 0 {
            Self::lemma_balance_in_nonneg(s.drop_last(), k);
        }
    }

    /// An empty ledger: every balance is zero.
    pub fn new() -> (r: TokenLedger)
        ensures
            r.wf(),
            forall|k: (Seq<u8>, Seq<u8>)| #[trigger] r@[k] == 0,
    {
        let l = TokenLedger { entries: Vec::new() };
        proof {
            assert(forall|k: (Seq<u8>, Seq<u8>)| balance_in(l.entries@, k) == 0);
        }
        l
    }

    fn find_entry(&self, asset: &Principal, owner: &Principal) -> (r: Option<usize>)
        ensures
            match r {
                Some(i) => i < self.entries@.len() && entry_key(self.entries@[i as int]) == (
                    asset@,
                    owner@,
                ),
                None => forall|i: int|
                    0 <= i < self.entries@.len() ==> entry_key(#[trigger] self.entries@[i]) != (
                        asset@,
                        owner@,
                    ),
            },
    {
        let mut i: usize = 0;
        while i < self.entries.len()
            invariant
                i <= self.entries@.len(),
                forall|j: int|
                    0 <= j < i ==> entry_key(#[trigger] self.entries@[j]) != (asset@, owner@),
            decreases self.entries@.len() - i,
        {
            let e = &self.entries[i];
            if bytes_eq(e.asset.as_bytes(), asset.as_bytes()) && bytes_eq(
                e.owner.as_bytes(),
                owner.as_bytes(),
            ) {
                return Some(i);
            }
            i += 1;
        }
        None
    }

    /// The balance `owner` holds of `asset`.
    pub fn balance_of(&self, asset: &Principal, owner: &Principal) -> (r: i128)
        requires
            self.wf(),
        ensures
            r as int == self@[(asset@, owner@)],
            r >= 0,
    {
        match self.find_entry(asset, owner) {
            Some(i) => {
                proof {
                    lemma_balance_at_index(self.entries@, i as int);
                }
                self.entries[i].amount
            },
            None => {
                proof {
                    lemma_balance_absent(self.entries@, (asset@, owner@));
                }
                0
            },
        }
    }

    /// Sets one balance, keeping the ledger well-formed.
    fn set_balance(&mut self, asset: &Principal, owner: &Principal, value: i128)
        requires
            old(self).wf(),
            value >= 0,
        ensures
            final(self).wf(),
            final(self)@ == old(self)@.insert((asset@, owner@), value as int),
    {
        let ghost k = (asset@, owner@);
        match self.find_entry(asset, owner) {
            Some(i) => {
                let ghost s0 = self.entries@;
                self.entries[i].amount = value;
                proof {
                    let s1 = self.entries@;
                    assert(s1 =~= s0.update(i as int, s1[i as int]));
                    assert(entry_key(s1[i as int]) == k);
                    lemma_balance_at_index(s1, i as int);
                    assert forall|k2: (Seq<u8>, Seq<u8>)| k2 != k implies balance_in(s1, k2)
                        == balance_in(s0, k2) by {
                        lemma_balance_update(s0, i as int, s1[i as int], k2);
                    }
                    assert(self@ =~= old(self)@.insert(k, value as int));
                }
            },
            None => {
                let ghost s0 = self.entries@;
                self.entries.push(
                    BalanceEntry { asset: asset.duplicate(), owner: owner.duplicate(), amount: value },
                );
                proof {
                    let s1 = self.entries@;
                    assert(s1.last() == s1[s0.len() as int]);
                    assert(entry_key(s1.last()) == k);
                    assert(s1.drop_last() =~= s0);
                    assert(balance_in(s1, k) == value as int);
                    assert forall|k2: (Seq<u8>, Seq<u8>)| k2 != k implies balance_in(s1, k2)
                        == balance_in(s0, k2) by {
                        assert(entry_key(s1.last()) != k2);
                    }
                    assert(self@ =~= old(self)@.insert(k, value as int));
                }
            },
        }
    }

    /// Creates `amount` of `asset` in `to`'s account; for setting up
    /// holdings that exist before the engine runs.
    pub fn mint(&mut self, asset: &Principal, to: &Principal, amount: i128) -> (r: Result<
        (),
        EscrowError,
    >)
        requires
            old(self).wf(),
            amount >= 0,
        ensures
            final(self).wf(),
            r is Ok <==> old(self)@[(asset@, to@)] + amount <= i128::MAX as int,
            r is Ok ==> final(self)@ == old(self)@.insert(
                (asset@, to@),
                old(self)@[(asset@, to@)] + amount,
            ),
            r is Err ==> final(self)@ == old(self)@ && r == Err::<(), EscrowError>(
                EscrowError::InsufficientBalance,
            ),
    {
        let bal = self.balance_of(asset, to);
        if amount > i128::MAX - bal {
            return Err(EscrowError::InsufficientBalance);
        }
        self.set_balance(asset, to, bal + amount);
        Ok(())
    }

    /// Moves `amount` of `asset` from `from` to `to`; fails with no
    /// effect when `from`'s balance does not cover it (or the move
    /// cannot be represented).
    pub fn transfer(&mut self, asset: &Principal, from: &Principal, to: &Principal, amount: i128) -> (r:
        Result<(), EscrowError>)
        requires
            old(self).wf(),
            amount >= 0,
        ensures
            final(self).wf(),
            r is Ok <==> can_transfer(old(self)@, asset@, from@, to@, amount as int),
            r is Ok ==> final(self)@ == apply_transfer(old(self)@, asset@, from@, to@, amount as int),
            r is Err ==> final(self)@ == old(self)@ && r == Err::<(), EscrowError>(
                EscrowError::InsufficientBalance,
            ),
    {
        let from_bal = self.balance_of(asset, from);
        if from_bal < amount {
            return Err(EscrowError::InsufficientBalance);
        }
        if bytes_eq(from.as_bytes(), to.as_bytes()) {
            return Ok(());
        }
        let to_bal = self.balance_of(asset, to);
        if amount > i128::MAX - to_bal {
            return Err(EscrowError::InsufficientBalance);
        }
        self.set_balance(asset, from, from_bal - amount);
        self.set_balance(asset, to, to_bal + amount);
        Ok(())
    }
}

} // verus!
