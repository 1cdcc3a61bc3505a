//! The payment orchestrator: drives a payment through its life and keeps the
//! transaction log.
//!
//! The orchestrator owns the log alone. The processor, the vault, the
//! registry and the loyalty program are handed to each operation, which
//! either completes in all of them or changes none of them. A refusal by one
//! of them is passed on as it came. The loyalty award is the one step that
//! cannot fail a payment: where the program refuses it, the payment stands
//! and no reward is issued.

use vstd::prelude::*;
use crate::address::{orders, Address, Transfer, TransferView};
use crate::dispute::{
    filing_decision,
    DisputeError,
    DisputeResolverContract,
    DisputeStatus,
    DisputeView,
    RegistryView,
};
use crate::escrow::{
    creation_decision,
    release_decision,
    without,
    EscrowError,
    EscrowManagerContract,
    EscrowView,
    VaultView,
};
use crate::fees::{fee_quote, FeeError};
use crate::loyalty::{
    award_decision,
    state_after_award,
    LoyaltyProgramContract,
    LoyaltyView,
};
use crate::processor::{
    payment_decision,
    payment_orders,
    PaymentError,
    PaymentProcessed,
    PaymentProcessorContract,
    ProcessorView,
};
use crate::table::{holds_exactly, texts, Table};

verus! {

/// Why the orchestrator itself refused a call.
#[derive(Copy, Clone, Debug, PartialEq, Eq, PartialOrd, Ord, Hash, Structural)]
pub enum OrchestratorError {
    Unauthorized,
    InvalidAmount,
    ContractNotSet,
    RefuseTransfer,
    TransactionFailed,
    InvalidTransactionType,
    TransactionNotFound,
    DuplicateId,
}

impl OrchestratorError {
    /// The numeric code of this error.
    pub fn code(self) -> (code: u32)
        ensures
            code == match self {
                OrchestratorError::Unauthorized => 1u32,
                OrchestratorError::InvalidAmount => 2u32,
                OrchestratorError::ContractNotSet => 3u32,
                OrchestratorError::RefuseTransfer => 4u32,
                OrchestratorError::TransactionFailed => 5u32,
                OrchestratorError::InvalidTransactionType => 6u32,
                OrchestratorError::TransactionNotFound => 7u32,
                OrchestratorError::DuplicateId => 8u32,
            },
    {
        match self {
            OrchestratorError::Unauthorized => 1,
            OrchestratorError::InvalidAmount => 2,
            OrchestratorError::ContractNotSet => 3,
            OrchestratorError::RefuseTransfer => 4,
            OrchestratorError::TransactionFailed => 5,
            OrchestratorError::InvalidTransactionType => 6,
            OrchestratorError::TransactionNotFound => 7,
            OrchestratorError::DuplicateId => 8,
        }
    }
}

/// Why an orchestrated operation failed: the orchestrator's own refusal, or
/// the refusal of the component it called, as that component gave it.
#[derive(Copy, Clone, Debug, PartialEq, Eq, Hash, Structural)]
pub enum Failure {
    Orchestrator(OrchestratorError),
    Payment(PaymentError),
    Escrow(EscrowError),
    Dispute(DisputeError),
}

/// Where a transaction stands.
#[derive(Copy, Clone, Debug, PartialEq, Eq, Hash, Structural)]
pub enum TransactionStatus {
    Pending,
    Completed,
    EscrowHeld,
    Disputed,
    Refunded,
}

impl TransactionStatus {
    /// The numeric code of this status.
    pub open spec fn spec_code(self) -> u32 {
        match self {
            TransactionStatus::Pending => 0u32,
            TransactionStatus::Completed => 1u32,
            TransactionStatus::EscrowHeld => 2u32,
            TransactionStatus::Disputed => 3u32,
            TransactionStatus::Refunded => 4u32,
        }
    }

    /// The numeric code of this status.
    pub fn code(self) -> (code: u32)
        ensures
            code == self.spec_code(),
    {
        match self {
            TransactionStatus::Pending => 0,
            TransactionStatus::Completed => 1,
            TransactionStatus::EscrowHeld => 2,
            TransactionStatus::Disputed => 3,
            TransactionStatus::Refunded => 4,
        }
    }

    /// The status with the numeric code `code`, if there is one.
    pub fn from_code(code: u32) -> (status: Option<TransactionStatus>)
        ensures
            match status {
                Some(s) => s.spec_code() == code,
                None => code > 4,
            },
    {
        if code == 0 {
            Some(TransactionStatus::Pending)
        } else if code == 1 {
            Some(TransactionStatus::Completed)
        } else if code == 2 {
            Some(TransactionStatus::EscrowHeld)
        } else if code == 3 {
            Some(TransactionStatus::Disputed)
        } else if code == 4 {
            Some(TransactionStatus::Refunded)
        } else {
            None
        }
    }
}

/// How a transaction is settled.
#[derive(Copy, Clone, Debug, PartialEq, Eq, Hash, Structural)]
pub enum TransactionKind {
    Simple,
    Escrow,
    Conditional,
}

impl TransactionKind {
    /// The numeric code of this kind.
    pub open spec fn spec_code(self) -> u32 {
        match self {
            TransactionKind::Simple => 0u32,
            TransactionKind::Escrow => 1u32,
            TransactionKind::Conditional => 2u32,
        }
    }

    /// The numeric code of this kind.
    pub fn code(self) -> (code: u32)
        ensures
            code == self.spec_code(),
    {
        match self {
            TransactionKind::Simple => 0,
            TransactionKind::Escrow => 1,
            TransactionKind::Conditional => 2,
        }
    }

    /// The kind with the numeric code `code`, or `InvalidTransactionType`
    /// where no kind has that code.
    pub fn from_code(code: u32) -> (kind: Result<TransactionKind, OrchestratorError>)
        ensures
            match kind {
                Ok(k) => k.spec_code() == code,
                Err(e) => code > 2 && e == OrchestratorError::InvalidTransactionType,
            },
    {
        if code == 0 {
            Ok(TransactionKind::Simple)
        } else if code == 1 {
            Ok(TransactionKind::Escrow)
        } else if code == 2 {
            Ok(TransactionKind::Conditional)
        } else {
            Err(OrchestratorError::InvalidTransactionType)
        }
    }
}

/// One entry of the transaction log.
#[derive(Debug)]
pub struct Transaction {
    pub transaction_id: String,
    pub payer: Address,
    pub payee: Address,
    pub amount: i128,
    pub status: TransactionStatus,
    pub transaction_type: TransactionKind,
    pub created_at: u64,
}

/// One entry of the transaction log as plain values.
pub struct TransactionView {
    pub transaction_id: Seq<char>,
    pub payer: Seq<char>,
    pub payee: Seq<char>,
    pub amount: int,
    pub status: TransactionStatus,
    pub transaction_type: TransactionKind,
    pub created_at: int,
}

impl View for Transaction {
    type V = TransactionView;

    open spec fn view(&self) -> TransactionView {
        TransactionView {
            transaction_id: self.transaction_id@,
            payer: self.payer@,
            payee: self.payee@,
            amount: self.amount as int,
            status: self.status,
            transaction_type: self.transaction_type,
            created_at: self.created_at as int,
        }
    }
}

impl Clone for Transaction {
    fn clone(&self) -> (copy: Transaction)
        ensures
            copy@ == self@,
    {
        Transaction {
            transaction_id: self.transaction_id.clone(),
            payer: self.payer.clone(),
            payee: self.payee.clone(),
            amount: self.amount,
            status: self.status,
            transaction_type: self.transaction_type,
            created_at: self.created_at,
        }
    }
}

/// What a payment earned its payer: the points offered to the loyalty
/// program and, where the program took them, the number of the reward.
#[derive(Copy, Clone, Debug, PartialEq, Eq, Structural)]
pub struct Award {
    pub points: u32,
    pub reward: Option<u32>,
}

/// The orchestrator's state.
pub struct PaymentOrchestratorContract {
    owner: Address,
    payment_processor: Address,
    escrow_manager: Address,
    dispute_resolver: Address,
    loyalty_program: Address,
    payment_token: Address,
    transactions: Table<Transaction>,
}

/// The orchestrator's state as plain values.
pub struct OrchestratorView {
    pub owner: Seq<char>,
    pub payment_processor: Seq<char>,
    pub escrow_manager: Seq<char>,
    pub dispute_resolver: Seq<char>,
    pub loyalty_program: Seq<char>,
    pub payment_token: Seq<char>,
    pub transactions: Map<Seq<char>, TransactionView>,
}

impl View for PaymentOrchestratorContract {
    type V = OrchestratorView;

    closed spec fn view(&self) -> OrchestratorView {
        OrchestratorView {
            owner: self.owner@,
            payment_processor: self.payment_processor@,
            escrow_manager: self.escrow_manager@,
            dispute_resolver: self.dispute_resolver@,
            loyalty_program: self.loyalty_program@,
            payment_token: self.payment_token@,
            transactions: self.transactions@.map_values(|entry: Transaction| entry@),
        }
    }
}

/// The whole hundreds in `amount`, rounded toward zero.
pub open spec fn whole_hundreds(amount: int) -> int {
    if amount >= 0 {
        amount / 100
    } else {
        -((-amount) / 100)
    }
}

/// The loyalty points for a payment of `amount`: one per whole hundred, kept
/// to the low 32 bits.
pub open spec fn loyalty_points(amount: int) -> int {
    whole_hundreds(amount) % 0x1_0000_0000
}

/// The reward number that an award gives, if the program takes the award.
pub open spec fn award_receipt(
    state: LoyaltyView,
    caller: Seq<char>,
    customer: Seq<char>,
    points: int,
) -> Option<int> {
    match award_decision(state, caller, customer, points) {
        Ok(_) => Some(state.rewards.len() as int + 1),
        Err(_) => None,
    }
}

/// The log with `entry` written under its id.
pub open spec fn logged(state: OrchestratorView, entry: TransactionView) -> OrchestratorView {
    OrchestratorView {
        transactions: state.transactions.insert(entry.transaction_id, entry),
        ..state
    }
}

/// The log with the entry under `id` moved to `status`.
pub open spec fn with_transaction_status(
    state: OrchestratorView,
    id: Seq<char>,
    status: TransactionStatus,
) -> OrchestratorView {
    OrchestratorView {
        transactions: state.transactions.insert(
            id,
            TransactionView { status, ..state.transactions[id] },
        ),
        ..state
    }
}

/// Whether every entry has a positive amount and is logged under its own id.
pub open spec fn log_is_sound(state: OrchestratorView) -> bool {
    forall|id: Seq<char>| #[trigger]
        state.transactions.contains_key(id) ==> state.transactions[id].transaction_id == id
            && state.transactions[id].amount > 0
}

/// The ids of a list of log entries, in order.
pub open spec fn transaction_ids(entries: Seq<Transaction>) -> Seq<Seq<char>> {
    entries.map_values(|entry: Transaction| entry.transaction_id@)
}

/// A list of log entries as plain values, in order.
pub open spec fn transaction_views(entries: Seq<Transaction>) -> Seq<TransactionView> {
    entries.map_values(|entry: Transaction| entry@)
}

/// Whether every entry of the list is over a positive amount.
pub open spec fn amounts_positive(entries: Seq<Transaction>) -> bool {
    forall|i: int| 0 <= i < entries.len() ==> (#[trigger] entries[i]).amount > 0
}

/// How `process_simple_payment` decides: the two fees, or the failure.
pub open spec fn simple_payment_decision(
    state: OrchestratorView,
    processor: ProcessorView,
    caller: Seq<char>,
    id: Seq<char>,
    payer: Seq<char>,
    amount: int,
    merchant_fee_bps: int,
) -> Result<(int, int), Failure> {
    if amount <= 0 {
        Err(Failure::Orchestrator(OrchestratorError::InvalidAmount))
    } else if caller != payer {
        Err(Failure::Orchestrator(OrchestratorError::Unauthorized))
    } else if state.transactions.contains_key(id) {
        Err(Failure::Orchestrator(OrchestratorError::DuplicateId))
    } else {
        match payment_decision(processor, caller, payer, amount, merchant_fee_bps) {
            Ok(fees) => Ok(fees),
            Err(e) => Err(Failure::Payment(e)),
        }
    }
}

/// How `process_escrow_payment` decides.
pub open spec fn escrow_payment_decision(
    state: OrchestratorView,
    vault: VaultView,
    caller: Seq<char>,
    id: Seq<char>,
    payer: Seq<char>,
    amount: int,
) -> Result<(), Failure> {
    if amount <= 0 {
        Err(Failure::Orchestrator(OrchestratorError::InvalidAmount))
    } else if caller != payer {
        Err(Failure::Orchestrator(OrchestratorError::Unauthorized))
    } else if state.transactions.contains_key(id) {
        Err(Failure::Orchestrator(OrchestratorError::DuplicateId))
    } else {
        match creation_decision(vault, caller, id, payer, amount) {
            Ok(()) => Ok(()),
            Err(e) => Err(Failure::Escrow(e)),
        }
    }
}

/// How the orchestrator's `release_escrow` decides: the hold to pay out, or
/// the failure.
pub open spec fn escrow_release_decision(
    state: OrchestratorView,
    vault: VaultView,
    id: Seq<char>,
    now: int,
) -> Result<EscrowView, Failure> {
    match release_decision(vault, id, now) {
        Err(e) => Err(Failure::Escrow(e)),
        Ok(hold) => if state.transactions.contains_key(id) {
            Ok(hold)
        } else {
            Err(Failure::Orchestrator(OrchestratorError::TransactionNotFound))
        },
    }
}

/// How the orchestrator's `file_dispute` decides: the resolution deadline, or
/// the failure. The disputed amount is the one the log holds.
pub open spec fn dispute_filing_decision(
    state: OrchestratorView,
    registry: RegistryView,
    caller: Seq<char>,
    id: Seq<char>,
    claimant: Seq<char>,
    now: int,
) -> Result<int, Failure> {
    if caller != claimant {
        Err(Failure::Orchestrator(OrchestratorError::Unauthorized))
    } else if !state.transactions.contains_key(id) {
        Err(Failure::Orchestrator(OrchestratorError::TransactionNotFound))
    } else {
        match filing_decision(registry, caller, id, claimant, state.transactions[id].amount, now) {
            Ok(deadline) => Ok(deadline),
            Err(e) => Err(Failure::Dispute(e)),
        }
    }
}

/// A principal that is zero or negative is refused with `InvalidAmount` by
/// every operation that takes one, whoever calls and whatever the state.
pub proof fn lemma_nonpositive_amount_refused(
    amount: int,
    caller: Seq<char>,
    party: Seq<char>,
    id: Seq<char>,
    platform_bps: int,
    merchant_bps: int,
    now: int,
    state: OrchestratorView,
    processor: ProcessorView,
    vault: VaultView,
    registry: RegistryView,
)
    requires
        amount <= 0,
    ensures
        fee_quote(amount, platform_bps, merchant_bps) == Err::<(int, int), FeeError>(
            FeeError::InvalidAmount,
        ),
        payment_decision(processor, caller, party, amount, merchant_bps) == Err::<
            (int, int),
            PaymentError,
        >(PaymentError::InvalidAmount),
        creation_decision(vault, caller, id, party, amount) == Err::<(), EscrowError>(
            EscrowError::InvalidAmount,
        ),
        filing_decision(registry, caller, id, party, amount, now) == Err::<int, DisputeError>(
            DisputeError::InvalidAmount,
        ),
        simple_payment_decision(state, processor, caller, id, party, amount, merchant_bps) == Err::<
            (int, int),
            Failure,
        >(Failure::Orchestrator(OrchestratorError::InvalidAmount)),
        escrow_payment_decision(state, vault, caller, id, party, amount) == Err::<(), Failure>(
            Failure::Orchestrator(OrchestratorError::InvalidAmount),
        ),
{
}

impl PaymentOrchestratorContract {
    #[verifier::type_invariant]
    spec fn well_formed(self) -> bool {
        forall|id: Seq<char>| #[trigger]
            self.transactions@.contains_key(id) ==> self.transactions@[id].transaction_id@ == id
                && self.transactions@[id].amount > 0
    }

    /// An orchestrator with an empty log that knows its collaborators by
    /// their addresses.
    pub fn new(
        owner: Address,
        payment_processor: Address,
        escrow_manager: Address,
        dispute_resolver: Address,
        loyalty_program: Address,
        payment_token: Address,
    ) -> (orchestrator: PaymentOrchestratorContract)
        ensures
            orchestrator@ == (OrchestratorView {
                owner: owner@,
                payment_processor: payment_processor@,
                escrow_manager: escrow_manager@,
                dispute_resolver: dispute_resolver@,
                loyalty_program: loyalty_program@,
                payment_token: payment_token@,
                transactions: Map::empty(),
            }),
    {
        let orchestrator = PaymentOrchestratorContract {
            owner,
            payment_processor,
            escrow_manager,
            dispute_resolver,
            loyalty_program,
            payment_token,
            transactions: Table::new(),
        };
        assert(orchestrator@.transactions =~= Map::<Seq<char>, TransactionView>::empty());
        orchestrator
    }

    /// The orchestrator whose log holds exactly `transactions`, each under
    /// its own id.
    ///
    /// An entry without a positive amount is refused with `InvalidAmount`;
    /// failing that, an id that occurs twice is refused with `DuplicateId`.
    pub fn restore(
        owner: Address,
        payment_processor: Address,
        escrow_manager: Address,
        dispute_resolver: Address,
        loyalty_program: Address,
        payment_token: Address,
        transactions: Vec<Transaction>,
    ) -> (made: Result<PaymentOrchestratorContract, OrchestratorError>)
        ensures
            match made {
                Ok(orchestrator) => {
                    &&& amounts_positive(transactions@)
                    &&& orchestrator@.owner == owner@
                    &&& orchestrator@.payment_processor == payment_processor@
                    &&& orchestrator@.escrow_manager == escrow_manager@
                    &&& orchestrator@.dispute_resolver == dispute_resolver@
                    &&& orchestrator@.loyalty_program == loyalty_program@
                    &&& orchestrator@.payment_token == payment_token@
                    &&& holds_exactly(
                        orchestrator@.transactions,
                        transaction_ids(transactions@),
                        transaction_views(transactions@),
                    )
                },
                Err(e) => if amounts_positive(transactions@) {
                    e == OrchestratorError::DuplicateId && !transaction_ids(
                        transactions@,
                    ).no_duplicates()
                } else {
                    e == OrchestratorError::InvalidAmount
                },
            },
    {
        let mut keys: Vec<String> = Vec::new();
        let mut i: usize = 0;
        while i < transactions.len()
            invariant
                i <= transactions@.len(),
                keys@.len() == i,
                forall|j: int| 0 <= j < i ==> (#[trigger] transactions@[j]).amount > 0,
                forall|j: int|
                    0 <= j < i ==> (#[trigger] keys@[j])@ == transactions@[j].transaction_id@,
            decreases transactions@.len() - i,
        {
            if transactions[i].amount <= 0 {
                return Err(OrchestratorError::InvalidAmount);
            }
            keys.push(transactions[i].transaction_id.clone());
            i += 1;
        }
        assert(texts(keys@) =~= transaction_ids(transactions@));
        match Table::from_lists(keys, transactions) {
            None => Err(OrchestratorError::DuplicateId),
            Some(table) => {
                proof {
                    let ids = transaction_ids(transactions@);
                    assert forall|id: Seq<char>| #[trigger]
                        table@.contains_key(id) implies table@[id].transaction_id@ == id
                        && table@[id].amount > 0 by {
                        let at = choose|i: int| 0 <= i < ids.len() && ids[i] == id;
                        assert(ids.contains(id));
                        assert(table@.contains_key(ids[at]));
                        assert(table@[id] == transactions@[at]);
                    }
                }
                let orchestrator = PaymentOrchestratorContract {
                    owner,
                    payment_processor,
                    escrow_manager,
                    dispute_resolver,
                    loyalty_program,
                    payment_token,
                    transactions: table,
                };
                proof {
                    let ids = transaction_ids(transactions@);
                    assert forall|i: int|
                        0 <= i < ids.len() implies orchestrator@.transactions.contains_key(
                        #[trigger] ids[i],
                    ) && orchestrator@.transactions[ids[i]] == transaction_views(transactions@)[i] by {
                        assert(table@.contains_key(ids[i]));
                    }
                    assert forall|id: Seq<char>| #[trigger]
                        orchestrator@.transactions.contains_key(id) implies ids.contains(id) by {
                        assert(table@.contains_key(id));
                    }
                }
                Ok(orchestrator)
            },
        }
    }

    /// Takes the orchestrator's log out, entry by entry.
    pub fn into_transactions(self) -> (entries: Vec<Transaction>)
        ensures
            amounts_positive(entries@),
            holds_exactly(
                self@.transactions,
                transaction_ids(entries@),
                transaction_views(entries@),
            ),
    {
        proof {
            use_type_invariant(&self);
        }
        let ghost held = self.transactions@;
        let (keys, entries) = self.transactions.into_lists();
        proof {
            let ids = texts(keys@);
            assert forall|i: int| 0 <= i < entries@.len() implies (#[trigger] entries@[i]).amount
                > 0 && entries@[i].transaction_id@ == ids[i] by {
                assert(held.contains_key(ids[i]));
            }
            assert(transaction_ids(entries@) =~= ids);
            assert forall|i: int| 0 <= i < ids.len() implies self@.transactions.contains_key(
                #[trigger] ids[i],
            ) && self@.transactions[ids[i]] == transaction_views(entries@)[i] by {
                assert(held.contains_key(ids[i]));
            }
            assert forall|id: Seq<char>| #[trigger]
                self@.transactions.contains_key(id) implies ids.contains(id) by {
                assert(held.contains_key(id));
            }
        }
        entries
    }

    /// The loyalty points for a payment of `amount`: one per whole hundred.
    /// A count beyond 32 bits keeps its low 32 bits.
    pub fn calculate_loyalty_points(amount: i128) -> (points: u32)
        ensures
            points == loyalty_points(amount as int),
            0 <= amount <= 429496729599 ==> points == amount / 100,
    {
        let whole: i128 = amount / 100;
        let low: i128 = whole % 4294967296;
        if low < 0 {
            (low + 4294967296) as u32
        } else {
            low as u32
        }
    }

    /// The party on whose authority the orchestrator awards loyalty points.
    pub fn get_owner(&self) -> (owner: Address)
        ensures
            owner@ == self@.owner,
    {
        self.owner.clone()
    }

    /// The address of the payment processor.
    pub fn get_payment_processor(&self) -> (address: Address)
        ensures
            address@ == self@.payment_processor,
    {
        self.payment_processor.clone()
    }

    /// The address of the escrow manager.
    pub fn get_escrow_manager(&self) -> (address: Address)
        ensures
            address@ == self@.escrow_manager,
    {
        self.escrow_manager.clone()
    }

    /// The address of the dispute resolver.
    pub fn get_dispute_resolver(&self) -> (address: Address)
        ensures
            address@ == self@.dispute_resolver,
    {
        self.dispute_resolver.clone()
    }

    /// The address of the loyalty program.
    pub fn get_loyalty_program(&self) -> (address: Address)
        ensures
            address@ == self@.loyalty_program,
    {
        self.loyalty_program.clone()
    }

    /// The token in which payments are made.
    pub fn get_payment_token(&self) -> (address: Address)
        ensures
            address@ == self@.payment_token,
    {
        self.payment_token.clone()
    }

    /// The addresses of the processor, the escrow manager, the dispute
    /// resolver, the loyalty program and the payment token, in this order.
    pub fn get_config(&self) -> (config: (Address, Address, Address, Address, Address))
        ensures
            config.0@ == self@.payment_processor,
            config.1@ == self@.escrow_manager,
            config.2@ == self@.dispute_resolver,
            config.3@ == self@.loyalty_program,
            config.4@ == self@.payment_token,
    {
        (
            self.get_payment_processor(),
            self.get_escrow_manager(),
            self.get_dispute_resolver(),
            self.get_loyalty_program(),
            self.get_payment_token(),
        )
    }

    /// The log entry under `transaction_id`, or `TransactionNotFound`.
    pub fn get_transaction(&self, transaction_id: &String) -> (found: Result<
        Transaction,
        OrchestratorError,
    >)
        ensures
            match found {
                Ok(entry) => self@.transactions.contains_key(transaction_id@) && entry@
                    == self@.transactions[transaction_id@],
                Err(e) => !self@.transactions.contains_key(transaction_id@) && e
                    == OrchestratorError::TransactionNotFound,
            },
            log_is_sound(self@),
    {
        proof {
            use_type_invariant(self);
        }
        match self.transactions.get(transaction_id) {
            Some(entry) => Ok(entry.clone()),
            None => Err(OrchestratorError::TransactionNotFound),
        }
    }

    /// Writes a new entry under `transaction_id`.
    fn log_transaction(
        &mut self,
        transaction_id: String,
        payer: Address,
        payee: Address,
        amount: i128,
        transaction_type: TransactionKind,
        status: TransactionStatus,
        now: u64,
    )
        requires
            amount > 0,
        ensures
            final(self)@ == logged(
                old(self)@,
                TransactionView {
                    transaction_id: transaction_id@,
                    payer: payer@,
                    payee: payee@,
                    amount: amount as int,
                    status,
                    transaction_type,
                    created_at: now as int,
                },
            ),
    {
        proof {
            use_type_invariant(&*self);
        }
        let entry = Transaction {
            transaction_id: transaction_id.clone(),
            payer,
            payee,
            amount,
            status,
            transaction_type,
            created_at: now,
        };
        let mut transactions: Table<Transaction> = Table::new();
        std::mem::swap(&mut transactions, &mut self.transactions);
        transactions.set(transaction_id, entry);
        self.transactions = transactions;
        assert(self@.transactions =~= old(self)@.transactions.insert(transaction_id@, entry@));
    }

    /// Moves the entry under `transaction_id` to `status`.
    fn update_transaction_status(&mut self, transaction_id: &String, status: TransactionStatus)
        requires
            old(self)@.transactions.contains_key(transaction_id@),
        ensures
            final(self)@ == with_transaction_status(old(self)@, transaction_id@, status),
    {
        proof {
            use_type_invariant(&*self);
        }
        let mut transactions: Table<Transaction> = Table::new();
        std::mem::swap(&mut transactions, &mut self.transactions);
        let taken = transactions.remove(transaction_id);
        match taken {
            Some(mut entry) => {
                entry.status = status;
                transactions.set(entry.transaction_id.clone(), entry);
            },
            None => {},
        }
        self.transactions = transactions;
        assert(self@.transactions =~= with_transaction_status(
            old(self)@,
            transaction_id@,
            status,
        ).transactions);
    }

    /// Offers the points for a payment of `amount` to the loyalty program on
    /// the authority of `issuer`. A refusal is no failure: no reward is
    /// issued and the program keeps its state.
    fn award_loyalty(
        loyalty: &mut LoyaltyProgramContract,
        issuer: &Address,
        customer: Address,
        transaction_id: String,
        amount: i128,
        now: u64,
    ) -> (award: Award)
        ensures
            award.points == loyalty_points(amount as int),
            match award_receipt(old(loyalty)@, issuer@, customer@, loyalty_points(amount as int)) {
                Some(number) => award.reward == Some(number as u32),
                None => award.reward is None,
            },
            final(loyalty)@ == state_after_award(
                old(loyalty)@,
                issuer@,
                customer@,
                transaction_id@,
                loyalty_points(amount as int),
                now as int,
            ),
    {
        let points = Self::calculate_loyalty_points(amount);
        match loyalty.award_points(issuer, customer, transaction_id, points, now) {
            Ok(number) => Award { points, reward: Some(number) },
            Err(_) => Award { points, reward: None },
        }
    }

    /// Pays `amount` from `payer` to `payee` at once.
    ///
    /// The amount must be positive, `caller` must be `payer`, and the id must
    /// be new to the log. The processor then takes its fees and orders the
    /// transfers; the payer is offered loyalty points; the transaction is
    /// logged as a completed simple payment. On any failure the log, the
    /// processor and the loyalty program are left as they were.
    pub fn process_simple_payment(
        &mut self,
        processor: &mut PaymentProcessorContract,
        loyalty: &mut LoyaltyProgramContract,
        caller: &Address,
        transaction_id: String,
        payer: Address,
        payee: Address,
        amount: i128,
        merchant: Address,
        merchant_fee_bps: u32,
        now: u64,
    ) -> (done: Result<(PaymentProcessed, Award), Failure>)
        ensures
            match simple_payment_decision(
                old(self)@,
                old(processor)@,
                caller@,
                transaction_id@,
                payer@,
                amount as int,
                merchant_fee_bps as int,
            ) {
                Ok((platform_fee, merchant_fee)) => {
                    &&& done is Ok
                    &&& done->Ok_0.0.platform_fee == platform_fee
                    &&& done->Ok_0.0.merchant_fee == merchant_fee
                    &&& orders(done->Ok_0.0.transfers@) == payment_orders(
                        payer@,
                        payee@,
                        old(processor)@.owner,
                        merchant@,
                        amount as int,
                        platform_fee,
                        merchant_fee,
                    )
                    &&& final(processor)@ == (ProcessorView {
                        collected_fees: old(processor)@.collected_fees + platform_fee,
                        ..old(processor)@
                    })
                    &&& done->Ok_0.1.points == loyalty_points(amount as int)
                    &&& match award_receipt(
                        old(loyalty)@,
                        old(self)@.owner,
                        payer@,
                        loyalty_points(amount as int),
                    ) {
                        Some(number) => done->Ok_0.1.reward == Some(number as u32),
                        None => done->Ok_0.1.reward is None,
                    }
                    &&& final(loyalty)@ == state_after_award(
                        old(loyalty)@,
                        old(self)@.owner,
                        payer@,
                        transaction_id@,
                        loyalty_points(amount as int),
                        now as int,
                    )
                    &&& final(self)@ == logged(
                        old(self)@,
                        TransactionView {
                            transaction_id: transaction_id@,
                            payer: payer@,
                            payee: payee@,
                            amount: amount as int,
                            status: TransactionStatus::Completed,
                            transaction_type: TransactionKind::Simple,
                            created_at: now as int,
                        },
                    )
                },
                Err(failure) => {
                    &&& done == Err::<(PaymentProcessed, Award), Failure>(failure)
                    &&& final(self)@ == old(self)@
                    &&& final(processor)@ == old(processor)@
                    &&& final(loyalty)@ == old(loyalty)@
                },
            },
            log_is_sound(final(self)@),
    {
        proof {
            use_type_invariant(&*self);
        }
        if amount <= 0 {
            return Err(Failure::Orchestrator(OrchestratorError::InvalidAmount));
        }
        if !caller.same(&payer) {
            return Err(Failure::Orchestrator(OrchestratorError::Unauthorized));
        }
        if self.transactions.contains_key(&transaction_id) {
            return Err(Failure::Orchestrator(OrchestratorError::DuplicateId));
        }
        let payment = match processor.process_payment(
            caller,
            payer.clone(),
            payee.clone(),
            amount,
            merchant,
            merchant_fee_bps,
            transaction_id.clone(),
        ) {
            Ok(payment) => payment,
            Err(e) => {
                return Err(Failure::Payment(e));
            },
        };
        let award = Self::award_loyalty(
            loyalty,
            &self.owner,
            payer.clone(),
            transaction_id.clone(),
            amount,
            now,
        );
        self.log_transaction(
            transaction_id,
            payer,
            payee,
            amount,
            TransactionKind::Simple,
            TransactionStatus::Completed,
            now,
        );
        proof {
            use_type_invariant(&*self);
        }
        Ok((payment, award))
    }

    /// Pays `amount` from `payer` toward `payee` into a hold that stays
    /// locked until the tick `locked_until`.
    ///
    /// The amount must be positive, `caller` must be `payer`, and the id must
    /// be new to the log and to the vault. The hold is opened in the payment
    /// token; the payer is offered loyalty points; the transaction is logged
    /// as held in escrow. On any failure the log, the vault and the loyalty
    /// program are left as they were.
    pub fn process_escrow_payment(
        &mut self,
        vault: &mut EscrowManagerContract,
        loyalty: &mut LoyaltyProgramContract,
        caller: &Address,
        transaction_id: String,
        payer: Address,
        payee: Address,
        amount: i128,
        locked_until: u64,
        now: u64,
    ) -> (done: Result<Award, Failure>)
        ensures
            match escrow_payment_decision(
                old(self)@,
                old(vault)@,
                caller@,
                transaction_id@,
                payer@,
                amount as int,
            ) {
                Ok(()) => {
                    &&& done is Ok
                    &&& final(vault)@ == (VaultView {
                        escrows: old(vault)@.escrows.insert(
                            transaction_id@,
                            EscrowView {
                                owner: payer@,
                                balance: amount as int,
                                asset: old(self)@.payment_token,
                                locked_until: locked_until as int,
                                transaction_id: transaction_id@,
                            },
                        ),
                        ..old(vault)@
                    })
                    &&& done->Ok_0.points == loyalty_points(amount as int)
                    &&& match award_receipt(
                        old(loyalty)@,
                        old(self)@.owner,
                        payer@,
                        loyalty_points(amount as int),
                    ) {
                        Some(number) => done->Ok_0.reward == Some(number as u32),
                        None => done->Ok_0.reward is None,
                    }
                    &&& final(loyalty)@ == state_after_award(
                        old(loyalty)@,
                        old(self)@.owner,
                        payer@,
                        transaction_id@,
                        loyalty_points(amount as int),
                        now as int,
                    )
                    &&& final(self)@ == logged(
                        old(self)@,
                        TransactionView {
                            transaction_id: transaction_id@,
                            payer: payer@,
                            payee: payee@,
                            amount: amount as int,
                            status: TransactionStatus::EscrowHeld,
                            transaction_type: TransactionKind::Escrow,
                            created_at: now as int,
                        },
                    )
                },
                Err(failure) => {
                    &&& done == Err::<Award, Failure>(failure)
                    &&& final(self)@ == old(self)@
                    &&& final(vault)@ == old(vault)@
                    &&& final(loyalty)@ == old(loyalty)@
                },
            },
            log_is_sound(final(self)@),
    {
        proof {
            use_type_invariant(&*self);
        }
        if amount <= 0 {
            return Err(Failure::Orchestrator(OrchestratorError::InvalidAmount));
        }
        if !caller.same(&payer) {
            return Err(Failure::Orchestrator(OrchestratorError::Unauthorized));
        }
        if self.transactions.contains_key(&transaction_id) {
            return Err(Failure::Orchestrator(OrchestratorError::DuplicateId));
        }
        match vault.create_escrow(
            caller,
            transaction_id.clone(),
            payer.clone(),
            self.payment_token.clone(),
            amount,
            locked_until,
        ) {
            Ok(()) => {},
            Err(e) => {
                return Err(Failure::Escrow(e));
            },
        }
        let award = Self::award_loyalty(
            loyalty,
            &self.owner,
            payer.clone(),
            transaction_id.clone(),
            amount,
            now,
        );
        self.log_transaction(
            transaction_id,
            payer,
            payee,
            amount,
            TransactionKind::Escrow,
            TransactionStatus::EscrowHeld,
            now,
        );
        proof {
            use_type_invariant(&*self);
        }
        Ok(award)
    }

    /// Releases the hold under `transaction_id` to `payee` at tick `now`.
    ///
    /// The vault must hold the id and its lock must have passed; the log
    /// must know the transaction. On success the hold is gone, the transfer
    /// of its whole balance to `payee` is returned, and the transaction is
    /// completed. On any failure the log and the vault are left as they were.
    pub fn release_escrow(
        &mut self,
        vault: &mut EscrowManagerContract,
        transaction_id: &String,
        payee: Address,
        now: u64,
    ) -> (done: Result<Transfer, Failure>)
        ensures
            match escrow_release_decision(old(self)@, old(vault)@, transaction_id@, now as int) {
                Ok(hold) => {
                    &&& done is Ok
                    &&& done->Ok_0@ == (TransferView {
                        from: hold.owner,
                        to: payee@,
                        amount: hold.balance,
                    })
                    &&& final(vault)@ == without(old(vault)@, transaction_id@)
                    &&& final(self)@ == with_transaction_status(
                        old(self)@,
                        transaction_id@,
                        TransactionStatus::Completed,
                    )
                },
                Err(failure) => {
                    &&& done == Err::<Transfer, Failure>(failure)
                    &&& final(self)@ == old(self)@
                    &&& final(vault)@ == old(vault)@
                },
            },
            log_is_sound(final(self)@),
    {
        proof {
            use_type_invariant(&*self);
        }
        if !self.transactions.contains_key(transaction_id) {
            return match vault.get_escrow(transaction_id) {
                Err(e) => Err(Failure::Escrow(e)),
                Ok(hold) => if now < hold.locked_until {
                    Err(Failure::Escrow(EscrowError::FundsLocked))
                } else {
                    Err(Failure::Orchestrator(OrchestratorError::TransactionNotFound))
                },
            };
        }
        let transfer = match vault.release_escrow(transaction_id, payee, now) {
            Ok(transfer) => transfer,
            Err(e) => {
                return Err(Failure::Escrow(e));
            },
        };
        self.update_transaction_status(transaction_id, TransactionStatus::Completed);
        proof {
            use_type_invariant(&*self);
        }
        Ok(transfer)
    }

    /// Files a dispute over the transaction under `transaction_id` at tick
    /// `now`.
    ///
    /// `caller` must be `claimant` and the log must know the transaction.
    /// The dispute is filed under the transaction's id for the amount the
    /// log holds, whatever the claimant may think was paid. On success the
    /// resolution deadline is returned and the transaction is disputed. On
    /// any failure the log and the registry are left as they were.
    pub fn file_dispute(
        &mut self,
        registry: &mut DisputeResolverContract,
        caller: &Address,
        transaction_id: String,
        claimant: Address,
        respondent: Address,
        reason: String,
        evidence: String,
        now: u64,
    ) -> (done: Result<u64, Failure>)
        ensures
            match dispute_filing_decision(
                old(self)@,
                old(registry)@,
                caller@,
                transaction_id@,
                claimant@,
                now as int,
            ) {
                Ok(deadline) => {
                    &&& done == Ok::<u64, Failure>(deadline as u64)
                    &&& final(registry)@ == (RegistryView {
                        disputes: old(registry)@.disputes.insert(
                            transaction_id@,
                            DisputeView {
                                dispute_id: transaction_id@,
                                claimant: claimant@,
                                respondent: respondent@,
                                amount: old(self)@.transactions[transaction_id@].amount,
                                reason: reason@,
                                evidence: evidence@,
                                filed_at: now as int,
                                resolution_deadline: deadline,
                                status: DisputeStatus::Filed,
                            },
                        ),
                        ..old(registry)@
                    })
                    &&& final(self)@ == with_transaction_status(
                        old(self)@,
                        transaction_id@,
                        TransactionStatus::Disputed,
                    )
                },
                Err(failure) => {
                    &&& done == Err::<u64, Failure>(failure)
                    &&& final(self)@ == old(self)@
                    &&& final(registry)@ == old(registry)@
                },
            },
            log_is_sound(final(self)@),
    {
        proof {
            use_type_invariant(&*self);
        }
        if !caller.same(&claimant) {
            return Err(Failure::Orchestrator(OrchestratorError::Unauthorized));
        }
        let amount = match self.transactions.get(&transaction_id) {
            Some(entry) => entry.amount,
            None => {
                return Err(Failure::Orchestrator(OrchestratorError::TransactionNotFound));
            },
        };
        let deadline = match registry.file_dispute(
            caller,
            transaction_id.clone(),
            claimant,
            respondent,
            amount,
            reason,
            evidence,
            now,
        ) {
            Ok(deadline) => deadline,
            Err(e) => {
                return Err(Failure::Dispute(e));
            },
        };
        self.update_transaction_status(&transaction_id, TransactionStatus::Disputed);
        proof {
            use_type_invariant(&*self);
        }
        Ok(deadline)
    }
}

} // verus!
