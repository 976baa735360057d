use vstd::prelude::*;

verus! {

/// A 32-byte address, as the host ledger identifies accounts, authorities and
/// asset mints.
#[derive(Clone, Copy, Debug)]
pub struct AccountId {
    pub bytes: [u8; 32],
}

impl View for AccountId {
    type V = Seq<u8>;

    open spec fn view(&self) -> Seq<u8> {
        self.bytes@
    }
}

impl AccountId {
    pub fn new(bytes: [u8; 32]) -> (r: AccountId)
        ensures
            r@ == bytes@,
    {
        AccountId { bytes }
    }
}

/// True exactly when the two identifiers hold the same bytes.
pub fn id_eq(a: &AccountId, b: &AccountId) -> (r: bool)
    ensures
        r == (a@ == b@),
{
    let mut i: usize = 0;
    while i < 32
        invariant
            0 <= i <= 32,
            forall|j: int| 0 <= j < i ==> a@[j] == b@[j],
        decreases 32 - i,
    {
        if a.bytes[i] != b.bytes[i] {
            assert(a@[i as int] != b@[i as int]);
            return false;
        }
        i += 1;
    }
    proof {
        assert(a@ =~= b@);
    }
    true
}

/// One fungible-asset account of the external transfer service: who owns it,
/// which asset it holds, and its balance.
#[derive(Clone, Copy, Debug)]
pub struct TokenAccount {
    pub owner: AccountId,
    pub mint: AccountId,
    pub amount: u64,
}

/// The mathematical value of a [`TokenAccount`].
#[verifier::ext_equal]
pub ghost struct TokenAccountV {
    pub owner: Seq<u8>,
    pub mint: Seq<u8>,
    pub amount: u64,
}

impl View for TokenAccount {
    type V = TokenAccountV;

    open spec fn view(&self) -> TokenAccountV {
        TokenAccountV { owner: self.owner@, mint: self.mint@, amount: self.amount }
    }
}

impl TokenAccount {
    pub fn new(owner: AccountId, mint: AccountId, amount: u64) -> (r: TokenAccount)
        ensures
            r@ == (TokenAccountV { owner: owner@, mint: mint@, amount }),
    {
        TokenAccount { owner, mint, amount }
    }

    pub fn balance(&self) -> (r: u64)
        ensures
            r == self@.amount,
    {
        self.amount
    }
}

/// The custody record of one open escrow: the terms of the exchange and the
/// proof value that fixes the derived custody authority.  Read-only after
/// creation.
#[derive(Clone, Copy, Debug)]
pub struct Escrow {
    /// Maker-chosen disambiguator; lets one maker run many escrows at once.
    pub seed: u64,
    /// The sole authority permitted to cancel.
    pub maker: AccountId,
    /// The asset held in custody (offered).
    pub mint_a: AccountId,
    /// The asset required in return.
    pub mint_b: AccountId,
    /// The exact amount of asset B the maker demands.
    pub receive: u64,
    /// The derivation proof value fixing the custody address.
    pub bump: u8,
}

/// The mathematical value of an [`Escrow`] record.
#[verifier::ext_equal]
pub ghost struct EscrowV {
    pub seed: u64,
    pub maker: Seq<u8>,
    pub mint_a: Seq<u8>,
    pub mint_b: Seq<u8>,
    pub receive: u64,
    pub bump: u8,
}

impl View for Escrow {
    type V = EscrowV;

    open spec fn view(&self) -> EscrowV {
        EscrowV {
            seed: self.seed,
            maker: self.maker@,
            mint_a: self.mint_a@,
            mint_b: self.mint_b@,
            receive: self.receive,
            bump: self.bump,
        }
    }
}

/// One open escrow as the ledger holds it: the custody record together with
/// the balance of its holding account.  The two are one value on purpose:
/// they are created together and destroyed together, so no state exists where
/// one stands without the other.
#[derive(Clone, Copy, Debug)]
pub struct OpenEscrow {
    pub record: Escrow,
    pub vault_amount: u64,
}

/// The mathematical value of an [`OpenEscrow`].
#[verifier::ext_equal]
pub ghost struct EntryV {
    pub record: EscrowV,
    pub vault_amount: u64,
}

impl View for OpenEscrow {
    type V = EntryV;

    open spec fn view(&self) -> EntryV {
        EntryV { record: self.record@, vault_amount: self.vault_amount }
    }
}

} // verus!
