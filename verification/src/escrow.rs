//! The escrow vault: funds held under an id until a deadline, then released
//! or refunded exactly once.

use vstd::prelude::*;
use crate::address::{Address, Transfer, TransferView};
use crate::table::{holds_exactly, texts, Table};

verus! {

/// Why the escrow vault refused a call.
#[derive(Copy, Clone, Debug, PartialEq, Eq, PartialOrd, Ord, Hash, Structural)]
pub enum EscrowError {
    Unauthorized,
    EscrowNotFound,
    InvalidAmount,
    AssetNotSupported,
    FundsLocked,
    InsufficientFunds,
    DuplicateId,
}

impl EscrowError {
    /// The numeric code of this error.
    pub fn code(self) -> (code: u32)
        ensures
            code == match self {
                EscrowError::Unauthorized => 1u32,
                EscrowError::EscrowNotFound => 2u32,
                EscrowError::InvalidAmount => 3u32,
                EscrowError::AssetNotSupported => 4u32,
                EscrowError::FundsLocked => 5u32,
                EscrowError::InsufficientFunds => 6u32,
                EscrowError::DuplicateId => 7u32,
            },
    {
        match self {
            EscrowError::Unauthorized => 1,
            EscrowError::EscrowNotFound => 2,
            EscrowError::InvalidAmount => 3,
            EscrowError::AssetNotSupported => 4,
            EscrowError::FundsLocked => 5,
            EscrowError::InsufficientFunds => 6,
            EscrowError::DuplicateId => 7,
        }
    }
}

/// One active hold.
#[derive(Debug)]
pub struct EscrowAccount {
    pub owner: Address,
    pub balance: i128,
    pub asset: Address,
    pub locked_until: u64,
    pub transaction_id: String,
}

/// One active hold as plain values.
pub struct EscrowView {
    pub owner: Seq<char>,
    pub balance: int,
    pub asset: Seq<char>,
    pub locked_until: int,
    pub transaction_id: Seq<char>,
}

impl View for EscrowAccount {
    type V = EscrowView;

    open spec fn view(&self) -> EscrowView {
        EscrowView {
            owner: self.owner@,
            balance: self.balance as int,
            asset: self.asset@,
            locked_until: self.locked_until as int,
            transaction_id: self.transaction_id@,
        }
    }
}

impl Clone for EscrowAccount {
    fn clone(&self) -> (copy: EscrowAccount)
        ensures
            copy@ == self@,
    {
        EscrowAccount {
            owner: self.owner.clone(),
            balance: self.balance,
            asset: self.asset.clone(),
            locked_until: self.locked_until,
            transaction_id: self.transaction_id.clone(),
        }
    }
}

/// The escrow vault's state.
pub struct EscrowManagerContract {
    owner: Address,
    escrows: Table<EscrowAccount>,
}

/// The escrow vault's state as plain values: the active holds by id.
pub struct VaultView {
    pub owner: Seq<char>,
    pub escrows: Map<Seq<char>, EscrowView>,
}

impl View for EscrowManagerContract {
    type V = VaultView;

    closed spec fn view(&self) -> VaultView {
        VaultView {
            owner: self.owner@,
            escrows: self.escrows@.map_values(|account: EscrowAccount| account@),
        }
    }
}

/// How `create_escrow` decides.
pub open spec fn creation_decision(
    state: VaultView,
    caller: Seq<char>,
    id: Seq<char>,
    owner: Seq<char>,
    amount: int,
) -> Result<(), EscrowError> {
    if amount <= 0 {
        Err(EscrowError::InvalidAmount)
    } else if caller != owner {
        Err(EscrowError::Unauthorized)
    } else if state.escrows.contains_key(id) {
        Err(EscrowError::DuplicateId)
    } else {
        Ok(())
    }
}

/// How `release_escrow` decides: the hold to pay out, or the refusal.
pub open spec fn release_decision(state: VaultView, id: Seq<char>, now: int) -> Result<
    EscrowView,
    EscrowError,
> {
    if !state.escrows.contains_key(id) {
        Err(EscrowError::EscrowNotFound)
    } else if now < state.escrows[id].locked_until {
        Err(EscrowError::FundsLocked)
    } else {
        Ok(state.escrows[id])
    }
}

/// How `refund_escrow` decides: the hold to pay back, or the refusal.
pub open spec fn refund_decision(state: VaultView, caller: Seq<char>, id: Seq<char>) -> Result<
    EscrowView,
    EscrowError,
> {
    if !state.escrows.contains_key(id) {
        Err(EscrowError::EscrowNotFound)
    } else if caller != state.escrows[id].owner {
        Err(EscrowError::Unauthorized)
    } else {
        Ok(state.escrows[id])
    }
}

/// The vault with the hold under `id` taken out.
pub open spec fn without(state: VaultView, id: Seq<char>) -> VaultView {
    VaultView { escrows: state.escrows.remove(id), ..state }
}

/// Whether every hold has a positive balance and is filed under its own id.
pub open spec fn holds_are_sound(state: VaultView) -> bool {
    forall|id: Seq<char>| #[trigger]
        state.escrows.contains_key(id) ==> state.escrows[id].balance > 0
            && state.escrows[id].transaction_id == id
}

/// The ids of a list of holds, in order.
pub open spec fn hold_ids(holds: Seq<EscrowAccount>) -> Seq<Seq<char>> {
    holds.map_values(|account: EscrowAccount| account.transaction_id@)
}

/// A list of holds as plain values, in order.
pub open spec fn hold_views(holds: Seq<EscrowAccount>) -> Seq<EscrowView> {
    holds.map_values(|account: EscrowAccount| account@)
}

/// Whether every hold of the list has a positive balance.
pub open spec fn balances_positive(holds: Seq<EscrowAccount>) -> bool {
    forall|i: int| 0 <= i < holds.len() ==> (#[trigger] holds[i]).balance > 0
}

/// Once a hold has been released, neither a second release nor a refund of
/// the same id finds it, at whatever tick and whoever asks.
pub proof fn lemma_release_is_final(
    state: VaultView,
    id: Seq<char>,
    now: int,
    later: int,
    caller: Seq<char>,
)
    requires
        release_decision(state, id, now) is Ok,
    ensures
        release_decision(without(state, id), id, later) == Err::<EscrowView, EscrowError>(
            EscrowError::EscrowNotFound,
        ),
        refund_decision(without(state, id), caller, id) == Err::<EscrowView, EscrowError>(
            EscrowError::EscrowNotFound,
        ),
{
}

/// Once a hold has been refunded, neither a release nor a second refund of
/// the same id finds it.
pub proof fn lemma_refund_is_final(
    state: VaultView,
    id: Seq<char>,
    caller: Seq<char>,
    later: int,
    other: Seq<char>,
)
    requires
        refund_decision(state, caller, id) is Ok,
    ensures
        release_decision(without(state, id), id, later) == Err::<EscrowView, EscrowError>(
            EscrowError::EscrowNotFound,
        ),
        refund_decision(without(state, id), other, id) == Err::<EscrowView, EscrowError>(
            EscrowError::EscrowNotFound,
        ),
{
}

impl EscrowManagerContract {
    #[verifier::type_invariant]
    spec fn well_formed(self) -> bool {
        forall|id: Seq<char>| #[trigger]
            self.escrows@.contains_key(id) ==> self.escrows@[id].balance > 0
                && self.escrows@[id].transaction_id@ == id
    }

    /// An empty vault administered by `owner`.
    pub fn new(owner: Address) -> (vault: EscrowManagerContract)
        ensures
            vault@ == (VaultView { owner: owner@, escrows: Map::empty() }),
    {
        let vault = EscrowManagerContract { owner, escrows: Table::new() };
        assert(vault@.escrows =~= Map::<Seq<char>, EscrowView>::empty());
        vault
    }

    /// The vault administered by `owner` that holds exactly `holds`, each
    /// under its own id.
    ///
    /// A hold without a positive balance is refused with `InvalidAmount`;
    /// failing that, an id that occurs twice is refused with `DuplicateId`.
    pub fn restore(owner: Address, holds: Vec<EscrowAccount>) -> (made: Result<
        EscrowManagerContract,
        EscrowError,
    >)
        ensures
            match made {
                Ok(vault) => {
                    &&& balances_positive(holds@)
                    &&& vault@.owner == owner@
                    &&& holds_exactly(vault@.escrows, hold_ids(holds@), hold_views(holds@))
                },
                Err(e) => if balances_positive(holds@) {
                    e == EscrowError::DuplicateId && !hold_ids(holds@).no_duplicates()
                } else {
                    e == EscrowError::InvalidAmount
                },
            },
    {
        let mut keys: Vec<String> = Vec::new();
        let mut i: usize = 0;
        while i < holds.len()
            invariant
                i <= holds@.len(),
                keys@.len() == i,
                forall|j: int| 0 <= j < i ==> (#[trigger] holds@[j]).balance > 0,
                forall|j: int| 0 <= j < i ==> (#[trigger] keys@[j])@ == holds@[j].transaction_id@,
            decreases holds@.len() - i,
        {
            if holds[i].balance <= 0 {
                return Err(EscrowError::InvalidAmount);
            }
            keys.push(holds[i].transaction_id.clone());
            i += 1;
        }
        assert(texts(keys@) =~= hold_ids(holds@));
        match Table::from_lists(keys, holds) {
            None => Err(EscrowError::DuplicateId),
            Some(escrows) => {
                proof {
                    let ids = hold_ids(holds@);
                    assert forall|id: Seq<char>| #[trigger]
                        escrows@.contains_key(id) implies escrows@[id].balance > 0
                        && escrows@[id].transaction_id@ == id by {
                        let at = choose|i: int| 0 <= i < ids.len() && ids[i] == id;
                        assert(ids.contains(id));
                        assert(escrows@.contains_key(ids[at]));
                        assert(escrows@[id] == holds@[at]);
                    }
                }
                let vault = EscrowManagerContract { owner, escrows };
                proof {
                    let ids = hold_ids(holds@);
                    assert forall|i: int| 0 <= i < ids.len() implies vault@.escrows.contains_key(
                        #[trigger] ids[i],
                    ) && vault@.escrows[ids[i]] == hold_views(holds@)[i] by {
                        assert(escrows@.contains_key(ids[i]));
                    }
                    assert forall|id: Seq<char>| #[trigger]
                        vault@.escrows.contains_key(id) implies ids.contains(id) by {
                        assert(escrows@.contains_key(id));
                    }
                }
                Ok(vault)
            },
        }
    }

    /// Takes the vault apart into its administrator and its holds.
    pub fn into_parts(self) -> (parts: (Address, Vec<EscrowAccount>))
        ensures
            parts.0@ == self@.owner,
            balances_positive(parts.1@),
            holds_exactly(self@.escrows, hold_ids(parts.1@), hold_views(parts.1@)),
    {
        proof {
            use_type_invariant(&self);
        }
        let ghost held = self.escrows@;
        let (keys, holds) = self.escrows.into_lists();
        proof {
            let ids = texts(keys@);
            assert forall|i: int| 0 <= i < holds@.len() implies (#[trigger] holds@[i]).balance > 0
                && holds@[i].transaction_id@ == ids[i] by {
                assert(held.contains_key(ids[i]));
            }
            assert(hold_ids(holds@) =~= ids);
            assert forall|i: int| 0 <= i < ids.len() implies self@.escrows.contains_key(
                #[trigger] ids[i],
            ) && self@.escrows[ids[i]] == hold_views(holds@)[i] by {
                assert(held.contains_key(ids[i]));
            }
            assert forall|id: Seq<char>| #[trigger]
                self@.escrows.contains_key(id) implies ids.contains(id) by {
                assert(held.contains_key(id));
            }
        }
        (self.owner, holds)
    }

    /// The party that administers this vault.
    pub fn get_owner(&self) -> (owner: Address)
        ensures
            owner@ == self@.owner,
    {
        self.owner.clone()
    }

    /// Opens a hold of `amount` under `transaction_id`, locked until the tick
    /// `locked_until`.
    ///
    /// The amount must be positive, `caller` must be `owner`, and the id must
    /// not name an active hold. On any refusal nothing changes.
    pub fn create_escrow(
        &mut self,
        caller: &Address,
        transaction_id: String,
        owner: Address,
        asset: Address,
        amount: i128,
        locked_until: u64,
    ) -> (done: Result<(), EscrowError>)
        ensures
            done == creation_decision(
                old(self)@,
                caller@,
                transaction_id@,
                owner@,
                amount as int,
            ),
            done is Ok ==> final(self)@ == (VaultView {
                escrows: old(self)@.escrows.insert(
                    transaction_id@,
                    EscrowView {
                        owner: owner@,
                        balance: amount as int,
                        asset: asset@,
                        locked_until: locked_until as int,
                        transaction_id: transaction_id@,
                    },
                ),
                ..old(self)@
            }),
            done is Err ==> final(self)@ == old(self)@,
            holds_are_sound(final(self)@),
    {
        proof {
            use_type_invariant(&*self);
        }
        if amount <= 0 {
            return Err(EscrowError::InvalidAmount);
        }
        if !caller.same(&owner) {
            return Err(EscrowError::Unauthorized);
        }
        if self.escrows.contains_key(&transaction_id) {
            return Err(EscrowError::DuplicateId);
        }
        let account = EscrowAccount {
            owner,
            balance: amount,
            asset,
            locked_until,
            transaction_id: transaction_id.clone(),
        };
        let mut escrows: Table<EscrowAccount> = Table::new();
        std::mem::swap(&mut escrows, &mut self.escrows);
        escrows.set(transaction_id, account);
        self.escrows = escrows;
        assert(self@.escrows =~= old(self)@.escrows.insert(transaction_id@, account@));
        Ok(())
    }

    /// Releases the hold under `transaction_id` to `recipient` at tick `now`.
    ///
    /// On success the hold is gone and the transfer of its whole balance from
    /// its owner to `recipient` is returned. On any refusal nothing changes.
    pub fn release_escrow(&mut self, transaction_id: &String, recipient: Address, now: u64) -> (done:
        Result<Transfer, EscrowError>)
        ensures
            match release_decision(old(self)@, transaction_id@, now as int) {
                Ok(hold) => {
                    &&& done is Ok
                    &&& done->Ok_0@ == (TransferView {
                        from: hold.owner,
                        to: recipient@,
                        amount: hold.balance,
                    })
                    &&& hold.balance > 0
                    &&& final(self)@ == without(old(self)@, transaction_id@)
                },
                Err(e) => done == Err::<Transfer, EscrowError>(e) && final(self)@ == old(self)@,
            },
            holds_are_sound(final(self)@),
    {
        proof {
            use_type_invariant(&*self);
        }
        let locked_until = match self.escrows.get(transaction_id) {
            None => {
                return Err(EscrowError::EscrowNotFound);
            },
            Some(account) => account.locked_until,
        };
        if now < locked_until {
            return Err(EscrowError::FundsLocked);
        }
        let mut escrows: Table<EscrowAccount> = Table::new();
        std::mem::swap(&mut escrows, &mut self.escrows);
        let taken = escrows.remove(transaction_id);
        self.escrows = escrows;
        assert(self@.escrows =~= old(self)@.escrows.remove(transaction_id@));
        match taken {
            Some(account) => Ok(
                Transfer { from: account.owner, to: recipient, amount: account.balance },
            ),
            None => Err(EscrowError::EscrowNotFound),
        }
    }

    /// Pays the hold under `transaction_id` back to its owner.
    ///
    /// `caller` must be the hold's owner. On success the hold is gone and the
    /// transfer of its whole balance back to the owner is returned. On any
    /// refusal nothing changes.
    pub fn refund_escrow(&mut self, caller: &Address, transaction_id: &String) -> (done: Result<
        Transfer,
        EscrowError,
    >)
        ensures
            match refund_decision(old(self)@, caller@, transaction_id@) {
                Ok(hold) => {
                    &&& done is Ok
                    &&& done->Ok_0@ == (TransferView {
                        from: hold.owner,
                        to: hold.owner,
                        amount: hold.balance,
                    })
                    &&& hold.balance > 0
                    &&& final(self)@ == without(old(self)@, transaction_id@)
                },
                Err(e) => done == Err::<Transfer, EscrowError>(e) && final(self)@ == old(self)@,
            },
            holds_are_sound(final(self)@),
    {
        proof {
            use_type_invariant(&*self);
        }
        let authorized = match self.escrows.get(transaction_id) {
            None => {
                return Err(EscrowError::EscrowNotFound);
            },
            Some(account) => caller.same(&account.owner),
        };
        if !authorized {
            return Err(EscrowError::Unauthorized);
        }
        let mut escrows: Table<EscrowAccount> = Table::new();
        std::mem::swap(&mut escrows, &mut self.escrows);
        let taken = escrows.remove(transaction_id);
        self.escrows = escrows;
        assert(self@.escrows =~= old(self)@.escrows.remove(transaction_id@));
        match taken {
            Some(account) => Ok(
                Transfer { from: account.owner.clone(), to: account.owner, amount: account.balance },
            ),
            None => Err(EscrowError::EscrowNotFound),
        }
    }

    /// The hold under `transaction_id`, or `EscrowNotFound`.
    pub fn get_escrow(&self, transaction_id: &String) -> (found: Result<EscrowAccount, EscrowError>)
        ensures
            match found {
                Ok(account) => self@.escrows.contains_key(transaction_id@) && account@
                    == self@.escrows[transaction_id@] && account.balance > 0
                    && account.transaction_id@ == transaction_id@,
                Err(e) => !self@.escrows.contains_key(transaction_id@) && e
                    == EscrowError::EscrowNotFound,
            },
    {
        proof {
            use_type_invariant(self);
        }
        match self.escrows.get(transaction_id) {
            Some(account) => Ok(account.clone()),
            None => Err(EscrowError::EscrowNotFound),
        }
    }

    /// Whether the hold under `transaction_id` is still locked at tick `now`.
    /// An id without a hold is not locked.
    pub fn is_locked(&self, transaction_id: &String, now: u64) -> (locked: bool)
        ensures
            locked == (self@.escrows.contains_key(transaction_id@) && now
                < self@.escrows[transaction_id@].locked_until),
    {
        match self.escrows.get(transaction_id) {
            Some(account) => now < account.locked_until,
            None => false,
        }
    }
}

} // verus!
