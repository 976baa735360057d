//! The custody ledger and its three atomic operations.
//!
//! The ledger holds every open escrow, keyed by `(maker, seed)`.  Each
//! operation is a single all-or-nothing transition: it either applies in full
//! or returns an error and changes nothing.  The transitions themselves are
//! stated as spec functions (`make_tr`, `refund_tr`, `transfer_tr`), the
//! executable operations are proved equal to them, and the laws at the end of
//! this file are proved of the transitions.

use vstd::prelude::*;

use crate::derivation::{derived_authority, find_escrow_authority};
use crate::errors::EscrowError;
use crate::state::{AccountId, EntryV, Escrow, EscrowV, OpenEscrow, TokenAccount, TokenAccountV};
use crate::state::id_eq;

verus! {

/// True when entry `e` is keyed by `(maker, seed)`.
pub open spec fn is_key(e: EntryV, maker: Seq<u8>, seed: u64) -> bool {
    e.record.maker == maker && e.record.seed == seed
}

/// True when some open escrow in `l` is keyed by `(maker, seed)`.
pub open spec fn contains_key(l: Seq<EntryV>, maker: Seq<u8>, seed: u64) -> bool {
    exists|i: int| 0 <= i < l.len() && #[trigger] is_key(l[i], maker, seed)
}

/// The index of the open escrow keyed by `(maker, seed)`; meaningful only
/// when `contains_key` holds and the ledger is well formed.
pub open spec fn key_index(l: Seq<EntryV>, maker: Seq<u8>, seed: u64) -> int {
    choose|i: int| 0 <= i < l.len() && #[trigger] is_key(l[i], maker, seed)
}

/// The open escrow keyed by `(maker, seed)`, if any.
pub open spec fn lookup(l: Seq<EntryV>, maker: Seq<u8>, seed: u64) -> Option<EntryV> {
    if contains_key(l, maker, seed) {
        Some(l[key_index(l, maker, seed)])
    } else {
        None
    }
}

/// Well-formedness of the ledger: no two open records share a `(maker, seed)`
/// key, hence no two share a holding account.
pub open spec fn wf_ledger(l: Seq<EntryV>) -> bool {
    forall|i: int, j: int|
        #![trigger l[i], l[j]]
        0 <= i < l.len() && 0 <= j < l.len() && i != j ==> !(l[i].record.maker
            == l[j].record.maker && l[i].record.seed == l[j].record.seed)
}

/// In a well-formed ledger a key identifies at most one entry, so any index
/// holding the key is the `key_index`.
pub proof fn lemma_key_at_index(l: Seq<EntryV>, maker: Seq<u8>, seed: u64, i: int)
    requires
        wf_ledger(l),
        0 <= i < l.len(),
        is_key(l[i], maker, seed),
    ensures
        contains_key(l, maker, seed),
        key_index(l, maker, seed) == i,
        lookup(l, maker, seed) == Some(l[i]),
{
    assert(contains_key(l, maker, seed));
    let j = key_index(l, maker, seed);
    assert(0 <= j < l.len() && is_key(l[j], maker, seed));
    if j != i {
        assert(l[i].record.maker == l[j].record.maker && l[i].record.seed == l[j].record.seed);
        assert(false);
    }
}

/// The transition of the create operation: the state it leads to and the
/// result it reports, as a function of the prior state, the arguments and the
/// freshly derived authority proof.  Errors leave the state untouched.
pub open spec fn make_tr(
    l: Seq<EntryV>,
    ata: TokenAccountV,
    seed: u64,
    deposit_amount: u64,
    receive: u64,
    maker: Seq<u8>,
    mint_a: Seq<u8>,
    mint_b: Seq<u8>,
    bump: u8,
) -> (Seq<EntryV>, TokenAccountV, Result<(), EscrowError>) {
    if deposit_amount == 0 || receive == 0 {
        (l, ata, Err(EscrowError::InvalidAmount))
    } else if contains_key(l, maker, seed) {
        (l, ata, Err(EscrowError::DuplicateRecord))
    } else if ata.owner != maker {
        (l, ata, Err(EscrowError::AuthorizationFault))
    } else if ata.mint != mint_a {
        (l, ata, Err(EscrowError::AssetMismatch))
    } else if ata.amount < deposit_amount {
        (l, ata, Err(EscrowError::InsufficientBalance))
    } else {
        (
            l.push(
                EntryV {
                    record: EscrowV { seed, maker, mint_a, mint_b, receive, bump },
                    vault_amount: deposit_amount,
                },
            ),
            TokenAccountV { amount: (ata.amount - deposit_amount) as u64, ..ata },
            Ok(()),
        )
    }
}

/// The transition of the cancel operation, as a function of the prior state,
/// the caller, the seed and the freshly derived authority proof.  On success
/// the whole held balance returns to the caller's asset-A account and the
/// record is destroyed.
pub open spec fn refund_tr(
    l: Seq<EntryV>,
    ata: TokenAccountV,
    caller: Seq<u8>,
    seed: u64,
    bump: u8,
) -> (Seq<EntryV>, TokenAccountV, Result<(), EscrowError>) {
    if !contains_key(l, caller, seed) {
        (l, ata, Err(EscrowError::RecordNotFound))
    } else {
        let e = l[key_index(l, caller, seed)];
        if e.record.bump != bump {
            (l, ata, Err(EscrowError::DerivationMismatch))
        } else if ata.owner != caller {
            (l, ata, Err(EscrowError::AuthorizationFault))
        } else if ata.mint != e.record.mint_a {
            (l, ata, Err(EscrowError::AssetMismatch))
        } else {
            (
                l.remove(key_index(l, caller, seed)),
                TokenAccountV { amount: (ata.amount + e.vault_amount) as u64, ..ata },
                Ok(()),
            )
        }
    }
}

/// The transition of the settle operation, as a function of the prior state,
/// the parties, the seed and the freshly derived authority proof.  On success
/// the taker pays the maker exactly `receive` of asset B, receives the whole
/// held balance of asset A, and the record is destroyed; all of it or none.
pub open spec fn transfer_tr(
    l: Seq<EntryV>,
    taker_ata_a: TokenAccountV,
    taker_ata_b: TokenAccountV,
    maker_ata_b: TokenAccountV,
    taker: Seq<u8>,
    maker: Seq<u8>,
    seed: u64,
    bump: u8,
) -> (Seq<EntryV>, TokenAccountV, TokenAccountV, TokenAccountV, Result<(), EscrowError>) {
    if !contains_key(l, maker, seed) {
        (l, taker_ata_a, taker_ata_b, maker_ata_b, Err(EscrowError::RecordNotFound))
    } else {
        let e = l[key_index(l, maker, seed)];
        if e.record.bump != bump {
            (l, taker_ata_a, taker_ata_b, maker_ata_b, Err(EscrowError::DerivationMismatch))
        } else if taker_ata_a.owner != taker || taker_ata_b.owner != taker || maker_ata_b.owner
            != maker {
            (l, taker_ata_a, taker_ata_b, maker_ata_b, Err(EscrowError::AuthorizationFault))
        } else if taker_ata_a.mint != e.record.mint_a || taker_ata_b.mint != e.record.mint_b
            || maker_ata_b.mint != e.record.mint_b {
            (l, taker_ata_a, taker_ata_b, maker_ata_b, Err(EscrowError::AssetMismatch))
        } else if taker_ata_b.amount < e.record.receive {
            (l, taker_ata_a, taker_ata_b, maker_ata_b, Err(EscrowError::InsufficientBalance))
        } else {
            (
                l.remove(key_index(l, maker, seed)),
                TokenAccountV {
                    amount: (taker_ata_a.amount + e.vault_amount) as u64,
                    ..taker_ata_a
                },
                TokenAccountV {
                    amount: (taker_ata_b.amount - e.record.receive) as u64,
                    ..taker_ata_b
                },
                TokenAccountV {
                    amount: (maker_ata_b.amount + e.record.receive) as u64,
                    ..maker_ata_b
                },
                Ok(()),
            )
        }
    }
}

/// Appending an entry under a fresh key keeps the ledger well formed.
pub proof fn lemma_wf_push(l: Seq<EntryV>, e: EntryV)
    requires
        wf_ledger(l),
        !contains_key(l, e.record.maker, e.record.seed),
    ensures
        wf_ledger(l.push(e)),
{
    let l2 = l.push(e);
    assert forall|a: int, b: int|
        #![trigger l2[a], l2[b]]
        0 <= a < l2.len() && 0 <= b < l2.len() && a != b implies !(l2[a].record.maker
        == l2[b].record.maker && l2[a].record.seed == l2[b].record.seed) by {
        if a < l.len() && b < l.len() {
            assert(l2[a] == l[a] && l2[b] == l[b]);
        } else if a == l.len() {
            assert(l2[b] == l[b]);
            if l2[a].record.maker == l2[b].record.maker && l2[a].record.seed
                == l2[b].record.seed {
                assert(is_key(l[b], e.record.maker, e.record.seed));
            }
        } else {
            assert(l2[a] == l[a]);
            if l2[a].record.maker == l2[b].record.maker && l2[a].record.seed
                == l2[b].record.seed {
                assert(is_key(l[a], e.record.maker, e.record.seed));
            }
        }
    }
}

/// Appending an entry under a fresh key leaves every other key's record as
/// it was.
pub proof fn lemma_push_frame(l: Seq<EntryV>, e: EntryV, maker: Seq<u8>, seed: u64)
    requires
        wf_ledger(l),
        !contains_key(l, e.record.maker, e.record.seed),
        !is_key(e, maker, seed),
    ensures
        lookup(l.push(e), maker, seed) == lookup(l, maker, seed),
{
    let l2 = l.push(e);
    lemma_wf_push(l, e);
    if contains_key(l, maker, seed) {
        let i = key_index(l, maker, seed);
        assert(is_key(l2[i], maker, seed));
        lemma_key_at_index(l2, maker, seed, i);
        lemma_key_at_index(l, maker, seed, i);
    } else {
        if contains_key(l2, maker, seed) {
            let j = key_index(l2, maker, seed);
            assert(j != l.len());
            assert(is_key(l[j], maker, seed));
        }
    }
}

/// Removing the entry at an index that does not hold a key leaves that key's
/// record as it was.
pub proof fn lemma_remove_frame(l: Seq<EntryV>, i: int, maker: Seq<u8>, seed: u64)
    requires
        wf_ledger(l),
        0 <= i < l.len(),
        !is_key(l[i], maker, seed),
    ensures
        lookup(l.remove(i), maker, seed) == lookup(l, maker, seed),
{
    let l2 = l.remove(i);
    l.remove_ensures(i);
    lemma_wf_remove(l, i);
    if contains_key(l, maker, seed) {
        let j = key_index(l, maker, seed);
        assert(is_key(l[j], maker, seed));
        assert(j != i);
        let j2 = if j < i { j } else { j - 1 };
        assert(l2[j2] == l[j]);
        lemma_key_at_index(l2, maker, seed, j2);
        lemma_key_at_index(l, maker, seed, j);
    } else {
        if contains_key(l2, maker, seed) {
            let j2 = key_index(l2, maker, seed);
            let j = if j2 < i { j2 } else { j2 + 1 };
            assert(l2[j2] == l[j]);
            assert(is_key(l[j], maker, seed));
        }
    }
}

/// Removing the one entry that holds a key closes that key for good.
pub proof fn lemma_remove_kills_key(l: Seq<EntryV>, maker: Seq<u8>, seed: u64)
    requires
        wf_ledger(l),
        contains_key(l, maker, seed),
    ensures
        !contains_key(l.remove(key_index(l, maker, seed)), maker, seed),
{
    let i = key_index(l, maker, seed);
    let l2 = l.remove(i);
    l.remove_ensures(i);
    if contains_key(l2, maker, seed) {
        let j2 = key_index(l2, maker, seed);
        let j = if j2 < i { j2 } else { j2 + 1 };
        assert(l2[j2] == l[j]);
        assert(is_key(l[j], maker, seed));
        assert(is_key(l[i], maker, seed));
        assert(j != i);
        assert(false);
    }
}

/// Removing an entry from a well-formed ledger keeps it well formed.
pub proof fn lemma_wf_remove(l: Seq<EntryV>, i: int)
    requires
        wf_ledger(l),
        0 <= i < l.len(),
    ensures
        wf_ledger(l.remove(i)),
{
    l.remove_ensures(i);
    let l2 = l.remove(i);
    assert forall|a: int, b: int|
        #![trigger l2[a], l2[b]]
        0 <= a < l2.len() && 0 <= b < l2.len() && a != b implies !(l2[a].record.maker
        == l2[b].record.maker && l2[a].record.seed == l2[b].record.seed) by {
        let a0 = if a < i { a } else { a + 1 };
        let b0 = if b < i { b } else { b + 1 };
        assert(l2[a] == l[a0] && l2[b] == l[b0]);
    }
}

/// The custody ledger: every open escrow, each with its holding account.
pub struct Ledger {
    escrows: Vec<OpenEscrow>,
}

impl View for Ledger {
    type V = Seq<EntryV>;

    closed spec fn view(&self) -> Seq<EntryV> {
        self.escrows@.map_values(|oe: OpenEscrow| oe@)
    }
}

impl Ledger {
    /// Well-formedness: no two open records share a key.
    pub open spec fn wf(&self) -> bool {
        wf_ledger(self@)
    }

    /// An empty ledger: no escrows open.
    pub fn new() -> (r: Ledger)
        ensures
            r@ == Seq::<EntryV>::empty(),
            r.wf(),
    {
        let r = Ledger { escrows: Vec::new() };
        proof {
            assert(r@ =~= Seq::<EntryV>::empty());
        }
        r
    }

    /// The number of open escrows.
    pub fn open_count(&self) -> (r: usize)
        ensures
            r == self@.len(),
    {
        self.escrows.len()
    }

    /// The index of the open escrow keyed by `(maker, seed)`, if any.
    fn find_index(&self, maker: &AccountId, seed: u64) -> (r: Option<usize>)
        ensures
            (match r {
                Some(i) => i < self@.len() && is_key(self@[i as int], maker@, seed),
                None => !contains_key(self@, maker@, seed),
            }),
    {
        let n = self.escrows.len();
        let mut i: usize = 0;
        while i < n
            invariant
                n == self@.len(),
                0 <= i <= n,
                forall|j: int| 0 <= j < i ==> !is_key(self@[j], maker@, seed),
            decreases n - i,
        {
            let e = &self.escrows[i];
            if e.record.seed == seed && id_eq(&e.record.maker, maker) {
                return Some(i);
            }
            i += 1;
        }
        None
    }

    /// True when an open record is keyed by `(maker, seed)`.
    pub fn has_record(&self, maker: &AccountId, seed: u64) -> (r: bool)
        ensures
            r == contains_key(self@, maker@, seed),
    {
        self.find_index(maker, seed).is_some()
    }

    /// The balance of the holding account of the record keyed by
    /// `(maker, seed)`, or `None` when no such record is open.
    pub fn vault_balance(&self, maker: &AccountId, seed: u64) -> (r: Option<u64>)
        requires
            self.wf(),
        ensures
            (match r {
                Some(a) => lookup(self@, maker@, seed) matches Some(e) && e.vault_amount == a,
                None => lookup(self@, maker@, seed) is None,
            }),
    {
        match self.find_index(maker, seed) {
            Some(i) => {
                proof {
                    lemma_key_at_index(self@, maker@, seed, i as int);
                }
                Some(self.escrows[i].vault_amount)
            },
            None => None,
        }
    }

    /// Create: open a custody record with the given terms and authority
    /// proof, and move exactly `deposit_amount` of asset A from the maker's
    /// source account into the fresh holding account.  The transition equals
    /// `make_tr` on the prior state; any error leaves everything untouched.
    pub fn init_escrow_and_deposit(
        &mut self,
        seed: u64,
        deposit_amount: u64,
        receive: u64,
        maker: AccountId,
        mint_a: AccountId,
        mint_b: AccountId,
        bump: u8,
        maker_ata_a: &mut TokenAccount,
    ) -> (r: Result<(), EscrowError>)
        requires
            old(self).wf(),
        ensures
            final(self).wf(),
            ({
                let t = make_tr(
                    old(self)@,
                    old(maker_ata_a)@,
                    seed,
                    deposit_amount,
                    receive,
                    maker@,
                    mint_a@,
                    mint_b@,
                    bump,
                );
                final(self)@ == t.0 && final(maker_ata_a)@ == t.1 && r == t.2
            }),
    {
        if deposit_amount == 0 || receive == 0 {
            return Err(EscrowError::InvalidAmount);
        }
        match self.find_index(&maker, seed) {
            Some(i) => {
                proof {
                    assert(is_key(self@[i as int], maker@, seed));
                }
                return Err(EscrowError::DuplicateRecord);
            },
            None => {},
        }
        if !id_eq(&maker_ata_a.owner, &maker) {
            return Err(EscrowError::AuthorizationFault);
        }
        if !id_eq(&maker_ata_a.mint, &mint_a) {
            return Err(EscrowError::AssetMismatch);
        }
        if maker_ata_a.amount < deposit_amount {
            return Err(EscrowError::InsufficientBalance);
        }
        maker_ata_a.amount = maker_ata_a.amount - deposit_amount;
        let record = Escrow { seed, maker, mint_a, mint_b, receive, bump };
        let entry = OpenEscrow { record, vault_amount: deposit_amount };
        let ghost pre = self@;
        self.escrows.push(entry);
        proof {
            assert(self@ =~= pre.push(entry@));
            lemma_wf_push(pre, entry@);
            assert(maker_ata_a@ =~= (TokenAccountV {
                amount: (old(maker_ata_a)@.amount - deposit_amount) as u64,
                ..old(maker_ata_a)@
            }));
        }
        Ok(())
    }

    /// Cancel: return the whole held balance of asset A to the caller, who
    /// must be the record's maker, and destroy the record together with its
    /// holding account.  The transition equals `refund_tr` on the prior
    /// state; any error leaves everything untouched.
    pub fn refund_and_close_vault(
        &mut self,
        seed: u64,
        caller: AccountId,
        bump: u8,
        maker_ata_a: &mut TokenAccount,
    ) -> (r: Result<(), EscrowError>)
        requires
            old(self).wf(),
            lookup(old(self)@, caller@, seed) matches Some(e) ==> old(maker_ata_a)@.amount
                + e.vault_amount <= u64::MAX,
        ensures
            final(self).wf(),
            ({
                let t = refund_tr(old(self)@, old(maker_ata_a)@, caller@, seed, bump);
                final(self)@ == t.0 && final(maker_ata_a)@ == t.1 && r == t.2
            }),
    {
        let i = match self.find_index(&caller, seed) {
            Some(i) => i,
            None => {
                return Err(EscrowError::RecordNotFound);
            },
        };
        proof {
            lemma_key_at_index(self@, caller@, seed, i as int);
        }
        let entry = self.escrows[i];
        if entry.record.bump != bump {
            return Err(EscrowError::DerivationMismatch);
        }
        if !id_eq(&maker_ata_a.owner, &caller) {
            return Err(EscrowError::AuthorizationFault);
        }
        if !id_eq(&maker_ata_a.mint, &entry.record.mint_a) {
            return Err(EscrowError::AssetMismatch);
        }
        maker_ata_a.amount = maker_ata_a.amount + entry.vault_amount;
        let ghost pre = self@;
        self.escrows.remove(i);
        proof {
            assert(self@ =~= pre.remove(i as int)) by {
                pre.remove_ensures(i as int);
                assert(self.escrows@ == old(self).escrows@.remove(i as int));
                old(self).escrows@.remove_ensures(i as int);
            }
            lemma_wf_remove(pre, i as int);
            assert(maker_ata_a@ =~= (TokenAccountV {
                amount: (old(maker_ata_a)@.amount + entry@.vault_amount) as u64,
                ..old(maker_ata_a)@
            }));
        }
        Ok(())
    }

    /// Settle: move exactly `receive` of asset B from the taker to the maker,
    /// move the whole held balance of asset A from the holding account to the
    /// taker, and destroy the record together with its holding account — all
    /// of it or none.  The transition equals `transfer_tr` on the prior
    /// state; any error leaves everything untouched.
    pub fn transfer_and_close_vault(
        &mut self,
        seed: u64,
        taker: AccountId,
        maker: AccountId,
        bump: u8,
        taker_ata_a: &mut TokenAccount,
        taker_ata_b: &mut TokenAccount,
        maker_ata_b: &mut TokenAccount,
    ) -> (r: Result<(), EscrowError>)
        requires
            old(self).wf(),
            lookup(old(self)@, maker@, seed) matches Some(e) ==> old(taker_ata_a)@.amount
                + e.vault_amount <= u64::MAX && old(maker_ata_b)@.amount + e.record.receive
                <= u64::MAX,
        ensures
            final(self).wf(),
            ({
                let t = transfer_tr(
                    old(self)@,
                    old(taker_ata_a)@,
                    old(taker_ata_b)@,
                    old(maker_ata_b)@,
                    taker@,
                    maker@,
                    seed,
                    bump,
                );
                final(self)@ == t.0 && final(taker_ata_a)@ == t.1 && final(taker_ata_b)@ == t.2
                    && final(maker_ata_b)@ == t.3 && r == t.4
            }),
    {
        let i = match self.find_index(&maker, seed) {
            Some(i) => i,
            None => {
                return Err(EscrowError::RecordNotFound);
            },
        };
        proof {
            lemma_key_at_index(self@, maker@, seed, i as int);
        }
        let entry = self.escrows[i];
        if entry.record.bump != bump {
            return Err(EscrowError::DerivationMismatch);
        }
        if !(id_eq(&taker_ata_a.owner, &taker) && id_eq(&taker_ata_b.owner, &taker) && id_eq(
            &maker_ata_b.owner,
            &maker,
        )) {
            return Err(EscrowError::AuthorizationFault);
        }
        if !(id_eq(&taker_ata_a.mint, &entry.record.mint_a) && id_eq(
            &taker_ata_b.mint,
            &entry.record.mint_b,
        ) && id_eq(&maker_ata_b.mint, &entry.record.mint_b)) {
            return Err(EscrowError::AssetMismatch);
        }
        if taker_ata_b.amount < entry.record.receive {
            return Err(EscrowError::InsufficientBalance);
        }
        taker_ata_b.amount = taker_ata_b.amount - entry.record.receive;
        maker_ata_b.amount = maker_ata_b.amount + entry.record.receive;
        taker_ata_a.amount = taker_ata_a.amount + entry.vault_amount;
        let ghost pre = self@;
        self.escrows.remove(i);
        proof {
            assert(self@ =~= pre.remove(i as int)) by {
                pre.remove_ensures(i as int);
                assert(self.escrows@ == old(self).escrows@.remove(i as int));
                old(self).escrows@.remove_ensures(i as int);
            }
            lemma_wf_remove(pre, i as int);
            assert(taker_ata_a@ =~= (TokenAccountV {
                amount: (old(taker_ata_a)@.amount + entry@.vault_amount) as u64,
                ..old(taker_ata_a)@
            }));
            assert(taker_ata_b@ =~= (TokenAccountV {
                amount: (old(taker_ata_b)@.amount - entry@.record.receive) as u64,
                ..old(taker_ata_b)@
            }));
            assert(maker_ata_b@ =~= (TokenAccountV {
                amount: (old(maker_ata_b)@.amount + entry@.record.receive) as u64,
                ..old(maker_ata_b)@
            }));
        }
        Ok(())
    }

    /// Create an escrow: derive the custody authority for `(maker, seed)`,
    /// open the record with the derived proof value, and move the deposit
    /// into custody.  Fails with `InvalidAmount` on a zero deposit or a zero
    /// receive amount, and with `DerivationMismatch` when no authority can be
    /// derived; any failure leaves everything untouched.
    pub fn make(
        &mut self,
        seed: u64,
        deposit_amount: u64,
        receive: u64,
        maker: AccountId,
        mint_a: AccountId,
        mint_b: AccountId,
        maker_ata_a: &mut TokenAccount,
    ) -> (r: Result<(), EscrowError>)
        requires
            old(self).wf(),
        ensures
            final(self).wf(),
            (match derived_authority(maker@, seed) {
                Some(ab) => ({
                    let t = make_tr(
                        old(self)@,
                        old(maker_ata_a)@,
                        seed,
                        deposit_amount,
                        receive,
                        maker@,
                        mint_a@,
                        mint_b@,
                        ab.1,
                    );
                    final(self)@ == t.0 && final(maker_ata_a)@ == t.1 && r == t.2
                }),
                None => final(self)@ == old(self)@ && final(maker_ata_a)@ == old(maker_ata_a)@
                    && r == Err::<(), EscrowError>(EscrowError::DerivationMismatch),
            }),
    {
        match find_escrow_authority(&maker, seed) {
            Some((_, bump)) => self.init_escrow_and_deposit(
                seed,
                deposit_amount,
                receive,
                maker,
                mint_a,
                mint_b,
                bump,
                maker_ata_a,
            ),
            None => Err(EscrowError::DerivationMismatch),
        }
    }

    /// Cancel an escrow: recompute the authority derivation for
    /// `(caller, seed)`, then return the deposit and destroy the record.
    /// Only the maker holds the key under which the record is found, so no
    /// other caller can unwind it; any failure leaves everything untouched.
    pub fn refund(
        &mut self,
        seed: u64,
        caller: AccountId,
        maker_ata_a: &mut TokenAccount,
    ) -> (r: Result<(), EscrowError>)
        requires
            old(self).wf(),
            lookup(old(self)@, caller@, seed) matches Some(e) ==> old(maker_ata_a)@.amount
                + e.vault_amount <= u64::MAX,
        ensures
            final(self).wf(),
            (match derived_authority(caller@, seed) {
                Some(ab) => ({
                    let t = refund_tr(old(self)@, old(maker_ata_a)@, caller@, seed, ab.1);
                    final(self)@ == t.0 && final(maker_ata_a)@ == t.1 && r == t.2
                }),
                None => final(self)@ == old(self)@ && final(maker_ata_a)@ == old(maker_ata_a)@
                    && r == Err::<(), EscrowError>(EscrowError::DerivationMismatch),
            }),
    {
        match find_escrow_authority(&caller, seed) {
            Some((_, bump)) => self.refund_and_close_vault(seed, caller, bump, maker_ata_a),
            None => Err(EscrowError::DerivationMismatch),
        }
    }

    /// Settle an escrow: recompute the authority derivation for
    /// `(maker, seed)`, then exchange the counter-asset for the custodied
    /// asset and destroy the record — all of it or none.  Any failure leaves
    /// everything untouched.
    pub fn transfer(
        &mut self,
        seed: u64,
        taker: AccountId,
        maker: AccountId,
        taker_ata_a: &mut TokenAccount,
        taker_ata_b: &mut TokenAccount,
        maker_ata_b: &mut TokenAccount,
    ) -> (r: Result<(), EscrowError>)
        requires
            old(self).wf(),
            lookup(old(self)@, maker@, seed) matches Some(e) ==> old(taker_ata_a)@.amount
                + e.vault_amount <= u64::MAX && old(maker_ata_b)@.amount + e.record.receive
                <= u64::MAX,
        ensures
            final(self).wf(),
            (match derived_authority(maker@, seed) {
                Some(ab) => ({
                    let t = transfer_tr(
                        old(self)@,
                        old(taker_ata_a)@,
                        old(taker_ata_b)@,
                        old(maker_ata_b)@,
                        taker@,
                        maker@,
                        seed,
                        ab.1,
                    );
                    final(self)@ == t.0 && final(taker_ata_a)@ == t.1 && final(taker_ata_b)@
                        == t.2 && final(maker_ata_b)@ == t.3 && r == t.4
                }),
                None => final(self)@ == old(self)@ && final(taker_ata_a)@ == old(taker_ata_a)@
                    && final(taker_ata_b)@ == old(taker_ata_b)@ && final(maker_ata_b)@ == old(
                    maker_ata_b,
                )@ && r == Err::<(), EscrowError>(EscrowError::DerivationMismatch),
            }),
    {
        match find_escrow_authority(&maker, seed) {
            Some((_, bump)) => self.transfer_and_close_vault(
                seed,
                taker,
                maker,
                bump,
                taker_ata_a,
                taker_ata_b,
                maker_ata_b,
            ),
            None => Err(EscrowError::DerivationMismatch),
        }
    }

    /// A copy of the custody record keyed by `(maker, seed)`, or `None` when
    /// no such record is open.
    pub fn record_of(&self, maker: &AccountId, seed: u64) -> (r: Option<Escrow>)
        requires
            self.wf(),
        ensures
            (match r {
                Some(rec) => lookup(self@, maker@, seed) matches Some(e) && e.record == rec@,
                None => lookup(self@, maker@, seed) is None,
            }),
    {
        match self.find_index(maker, seed) {
            Some(i) => {
                proof {
                    lemma_key_at_index(self@, maker@, seed, i as int);
                }
                Some(self.escrows[i].record)
            },
            None => None,
        }
    }

    /// The `receive` amount demanded by the record keyed by `(maker, seed)`,
    /// or `None` when no such record is open.
    pub fn receive_of(&self, maker: &AccountId, seed: u64) -> (r: Option<u64>)
        requires
            self.wf(),
        ensures
            (match r {
                Some(a) => lookup(self@, maker@, seed) matches Some(e) && e.record.receive == a,
                None => lookup(self@, maker@, seed) is None,
            }),
    {
        match self.find_index(maker, seed) {
            Some(i) => {
                proof {
                    lemma_key_at_index(self@, maker@, seed, i as int);
                }
                Some(self.escrows[i].record.receive)
            },
            None => None,
        }
    }
}

/// Law: for any positive deposit and receive amount, creating an escrow and
/// immediately cancelling it returns exactly the deposit to the maker and
/// leaves the ledger — records and holding accounts alike — exactly as it
/// was.
pub proof fn lemma_make_then_refund_restores(
    l: Seq<EntryV>,
    ata: TokenAccountV,
    seed: u64,
    deposit_amount: u64,
    receive: u64,
    maker: Seq<u8>,
    mint_a: Seq<u8>,
    mint_b: Seq<u8>,
    bump: u8,
)
    requires
        wf_ledger(l),
        deposit_amount > 0,
        receive > 0,
        !contains_key(l, maker, seed),
        ata.owner == maker,
        ata.mint == mint_a,
        ata.amount >= deposit_amount,
    ensures
        ({
            let t1 = make_tr(l, ata, seed, deposit_amount, receive, maker, mint_a, mint_b, bump);
            let t2 = refund_tr(t1.0, t1.1, maker, seed, bump);
            t1.2 == Ok::<(), EscrowError>(()) && t2.2 == Ok::<(), EscrowError>(()) && t2.0 == l
                && t2.1 == ata
        }),
{
    let t1 = make_tr(l, ata, seed, deposit_amount, receive, maker, mint_a, mint_b, bump);
    let e = EntryV {
        record: EscrowV { seed, maker, mint_a, mint_b, receive, bump },
        vault_amount: deposit_amount,
    };
    let l1 = l.push(e);
    assert(t1.0 == l1 && t1.2 == Ok::<(), EscrowError>(()));
    lemma_wf_push(l, e);
    assert(is_key(l1[l.len() as int], maker, seed));
    lemma_key_at_index(l1, maker, seed, l.len() as int);
    let t2 = refund_tr(l1, t1.1, maker, seed, bump);
    assert(t2.2 == Ok::<(), EscrowError>(()));
    l1.remove_ensures(l.len() as int);
    assert(t2.0 =~= l);
    assert(t2.1 =~= ata);
}

/// Law: a zero deposit or a zero receive amount makes creation fail with
/// `InvalidAmount` before anything moves, and `InvalidAmount` arises only
/// then.
pub proof fn lemma_make_invalid_amount(
    l: Seq<EntryV>,
    ata: TokenAccountV,
    seed: u64,
    deposit_amount: u64,
    receive: u64,
    maker: Seq<u8>,
    mint_a: Seq<u8>,
    mint_b: Seq<u8>,
    bump: u8,
)
    ensures
        ({
            let t = make_tr(l, ata, seed, deposit_amount, receive, maker, mint_a, mint_b, bump);
            ((deposit_amount == 0 || receive == 0) ==> t == (
                l,
                ata,
                Err::<(), EscrowError>(EscrowError::InvalidAmount),
            )) && (t.2 == Err::<(), EscrowError>(EscrowError::InvalidAmount) ==> (deposit_amount
                == 0 || receive == 0))
        }),
{
}

/// Law: with an open record, a matching proof and matching accounts,
/// settlement succeeds exactly when the taker holds at least `receive` of
/// asset B.  It then pays the maker exactly `receive`, hands the taker
/// exactly the held balance, and destroys the record; on failure nothing
/// changes.
pub proof fn lemma_transfer_settles(
    l: Seq<EntryV>,
    taker_ata_a: TokenAccountV,
    taker_ata_b: TokenAccountV,
    maker_ata_b: TokenAccountV,
    taker: Seq<u8>,
    maker: Seq<u8>,
    seed: u64,
    bump: u8,
)
    requires
        wf_ledger(l),
        lookup(l, maker, seed) matches Some(e) && e.record.bump == bump && taker_ata_a.owner
            == taker && taker_ata_b.owner == taker && maker_ata_b.owner == maker
            && taker_ata_a.mint == e.record.mint_a && taker_ata_b.mint == e.record.mint_b
            && maker_ata_b.mint == e.record.mint_b && taker_ata_a.amount + e.vault_amount
            <= u64::MAX && maker_ata_b.amount + e.record.receive <= u64::MAX,
    ensures
        ({
            let e = lookup(l, maker, seed)->Some_0;
            let t = transfer_tr(l, taker_ata_a, taker_ata_b, maker_ata_b, taker, maker, seed, bump);
            ((t.4 == Ok::<(), EscrowError>(())) <==> taker_ata_b.amount >= e.record.receive)
                && (t.4 == Ok::<(), EscrowError>(()) ==> t.1.amount == taker_ata_a.amount
                + e.vault_amount && t.2.amount == taker_ata_b.amount - e.record.receive
                && t.3.amount == maker_ata_b.amount + e.record.receive && !contains_key(
                t.0,
                maker,
                seed,
            )) && (t.4 is Err ==> t == (
                l,
                taker_ata_a,
                taker_ata_b,
                maker_ata_b,
                t.4,
            ))
        }),
{
    let e = lookup(l, maker, seed)->Some_0;
    let t = transfer_tr(l, taker_ata_a, taker_ata_b, maker_ata_b, taker, maker, seed, bump);
    if taker_ata_b.amount >= e.record.receive {
        lemma_remove_kills_key(l, maker, seed);
    }
}

/// Law: creation succeeds exactly when both amounts are positive, the key is
/// fresh, and the maker's source account is the maker's, holds asset A and
/// can fund the deposit.  It then opens a record holding exactly the given
/// terms and proof, with the whole deposit in custody; on failure nothing
/// changes.
pub proof fn lemma_make_creates(
    l: Seq<EntryV>,
    ata: TokenAccountV,
    seed: u64,
    deposit_amount: u64,
    receive: u64,
    maker: Seq<u8>,
    mint_a: Seq<u8>,
    mint_b: Seq<u8>,
    bump: u8,
)
    requires
        wf_ledger(l),
    ensures
        ({
            let t = make_tr(l, ata, seed, deposit_amount, receive, maker, mint_a, mint_b, bump);
            ((t.2 == Ok::<(), EscrowError>(())) <==> (deposit_amount > 0 && receive > 0
                && !contains_key(l, maker, seed) && ata.owner == maker && ata.mint == mint_a
                && ata.amount >= deposit_amount)) && (t.2 == Ok::<(), EscrowError>(()) ==> ({
                lookup(t.0, maker, seed) matches Some(e) && e.record == (EscrowV {
                    seed,
                    maker,
                    mint_a,
                    mint_b,
                    receive,
                    bump,
                }) && e.vault_amount == deposit_amount && t.1.amount == ata.amount
                    - deposit_amount
            })) && (t.2 is Err ==> t.0 == l && t.1 == ata)
        }),
{
    let t = make_tr(l, ata, seed, deposit_amount, receive, maker, mint_a, mint_b, bump);
    if t.2 == Ok::<(), EscrowError>(()) {
        let e = EntryV {
            record: EscrowV { seed, maker, mint_a, mint_b, receive, bump },
            vault_amount: deposit_amount,
        };
        lemma_wf_push(l, e);
        assert(is_key(l.push(e)[l.len() as int], maker, seed));
        lemma_key_at_index(l.push(e), maker, seed, l.len() as int);
    }
}

/// Law: with an open record, a matching proof and a matching account, the
/// maker's cancel always succeeds and recovers exactly what remains in
/// custody; the record is destroyed with its holding account.
pub proof fn lemma_refund_recovers(
    l: Seq<EntryV>,
    ata: TokenAccountV,
    caller: Seq<u8>,
    seed: u64,
    bump: u8,
)
    requires
        wf_ledger(l),
        lookup(l, caller, seed) matches Some(e) && e.record.bump == bump && ata.owner == caller
            && ata.mint == e.record.mint_a && ata.amount + e.vault_amount <= u64::MAX,
    ensures
        ({
            let e = lookup(l, caller, seed)->Some_0;
            let t = refund_tr(l, ata, caller, seed, bump);
            t.2 == Ok::<(), EscrowError>(()) && t.1.amount == ata.amount + e.vault_amount
                && !contains_key(t.0, caller, seed)
        }),
{
    lemma_remove_kills_key(l, caller, seed);
}

/// Law: closing is final.  A key with no open record can be neither
/// cancelled nor settled: both report `RecordNotFound` and change nothing;
/// and a successful cancel or settle leaves its key with no open record, so
/// a second attempt on the same `(maker, seed)` fails just so.
pub proof fn lemma_closed_record_rejects(
    l: Seq<EntryV>,
    ata: TokenAccountV,
    taker_ata_a: TokenAccountV,
    taker_ata_b: TokenAccountV,
    maker_ata_b: TokenAccountV,
    taker: Seq<u8>,
    maker: Seq<u8>,
    seed: u64,
    bump: u8,
)
    requires
        wf_ledger(l),
    ensures
        !contains_key(l, maker, seed) ==> refund_tr(l, ata, maker, seed, bump) == (
            l,
            ata,
            Err::<(), EscrowError>(EscrowError::RecordNotFound),
        ),
        !contains_key(l, maker, seed) ==> transfer_tr(
            l,
            taker_ata_a,
            taker_ata_b,
            maker_ata_b,
            taker,
            maker,
            seed,
            bump,
        ) == (
            l,
            taker_ata_a,
            taker_ata_b,
            maker_ata_b,
            Err::<(), EscrowError>(EscrowError::RecordNotFound),
        ),
        refund_tr(l, ata, maker, seed, bump).2 == Ok::<(), EscrowError>(()) ==> !contains_key(
            refund_tr(l, ata, maker, seed, bump).0,
            maker,
            seed,
        ),
        transfer_tr(l, taker_ata_a, taker_ata_b, maker_ata_b, taker, maker, seed, bump).4
            == Ok::<(), EscrowError>(()) ==> !contains_key(
            transfer_tr(l, taker_ata_a, taker_ata_b, maker_ata_b, taker, maker, seed, bump).0,
            maker,
            seed,
        ),
{
    if contains_key(l, maker, seed) {
        lemma_remove_kills_key(l, maker, seed);
    }
}

/// Law: escrows under different keys never interfere.  A create, cancel or
/// settle keyed by `(maker, seed)` leaves the record — and with it the held
/// balance — of every other `(maker, seed)` key exactly as it was.
pub proof fn lemma_escrow_isolation(
    l: Seq<EntryV>,
    ata: TokenAccountV,
    taker_ata_a: TokenAccountV,
    taker_ata_b: TokenAccountV,
    maker_ata_b: TokenAccountV,
    seed: u64,
    deposit_amount: u64,
    receive: u64,
    maker: Seq<u8>,
    mint_a: Seq<u8>,
    mint_b: Seq<u8>,
    taker: Seq<u8>,
    bump: u8,
    other_maker: Seq<u8>,
    other_seed: u64,
)
    requires
        wf_ledger(l),
        !(other_maker == maker && other_seed == seed),
    ensures
        lookup(
            make_tr(l, ata, seed, deposit_amount, receive, maker, mint_a, mint_b, bump).0,
            other_maker,
            other_seed,
        ) == lookup(l, other_maker, other_seed),
        lookup(refund_tr(l, ata, maker, seed, bump).0, other_maker, other_seed) == lookup(
            l,
            other_maker,
            other_seed,
        ),
        lookup(
            transfer_tr(l, taker_ata_a, taker_ata_b, maker_ata_b, taker, maker, seed, bump).0,
            other_maker,
            other_seed,
        ) == lookup(l, other_maker, other_seed),
{
    let t1 = make_tr(l, ata, seed, deposit_amount, receive, maker, mint_a, mint_b, bump);
    if t1.2 == Ok::<(), EscrowError>(()) {
        let e = EntryV {
            record: EscrowV { seed, maker, mint_a, mint_b, receive, bump },
            vault_amount: deposit_amount,
        };
        lemma_push_frame(l, e, other_maker, other_seed);
    }
    if contains_key(l, maker, seed) {
        let i = key_index(l, maker, seed);
        assert(is_key(l[i], maker, seed));
        lemma_remove_frame(l, i, other_maker, other_seed);
    }
}

} // verus!
