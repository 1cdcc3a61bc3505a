//! The dispute registry: disputes filed against payments, ruled on by the
//! administrator or refunded to the claimant once the window has passed.

use vstd::prelude::*;
use crate::address::Address;
use crate::table::{holds_exactly, texts, Table};

verus! {

/// Why the dispute registry refused a call.
#[derive(Copy, Clone, Debug, PartialEq, Eq, PartialOrd, Ord, Hash, Structural)]
pub enum DisputeError {
    Unauthorized,
    DisputeNotFound,
    InvalidAmount,
    NotYetResolvable,
    AlreadyResolved,
    InvalidEvidence,
    DuplicateId,
}

impl DisputeError {
    /// The numeric code of this error.
    pub fn code(self) -> (code: u32)
        ensures
            code == match self {
                DisputeError::Unauthorized => 1u32,
                DisputeError::DisputeNotFound => 2u32,
                DisputeError::InvalidAmount => 3u32,
                DisputeError::NotYetResolvable => 4u32,
                DisputeError::AlreadyResolved => 5u32,
                DisputeError::InvalidEvidence => 6u32,
                DisputeError::DuplicateId => 7u32,
            },
    {
        match self {
            DisputeError::Unauthorized => 1,
            DisputeError::DisputeNotFound => 2,
            DisputeError::InvalidAmount => 3,
            DisputeError::NotYetResolvable => 4,
            DisputeError::AlreadyResolved => 5,
            DisputeError::InvalidEvidence => 6,
            DisputeError::DuplicateId => 7,
        }
    }
}

/// Why a request to pause or resume the registry was refused.
#[derive(Copy, Clone, Debug, PartialEq, Eq, PartialOrd, Ord, Hash, Structural)]
pub enum PauseError {
    /// The caller is not the administrator.
    Unauthorized,
    /// The registry is already paused.
    EnforcedPause,
    /// The registry is not paused.
    ExpectedPause,
}

/// Where a dispute stands.
#[derive(Copy, Clone, Debug, PartialEq, Eq, Hash, Structural)]
pub enum DisputeStatus {
    Filed,
    UnderReview,
    Resolved,
    Refunded,
}

impl DisputeStatus {
    /// Whether no further transition leaves this status.
    pub open spec fn terminal(self) -> bool {
        self == DisputeStatus::Resolved || self == DisputeStatus::Refunded
    }

    /// Whether no further transition leaves this status.
    pub fn is_terminal(self) -> (terminal: bool)
        ensures
            terminal == self.terminal(),
    {
        match self {
            DisputeStatus::Filed => false,
            DisputeStatus::UnderReview => false,
            DisputeStatus::Resolved => true,
            DisputeStatus::Refunded => true,
        }
    }

    /// The numeric code of this status.
    pub open spec fn spec_code(self) -> u32 {
        match self {
            DisputeStatus::Filed => 0u32,
            DisputeStatus::UnderReview => 1u32,
            DisputeStatus::Resolved => 2u32,
            DisputeStatus::Refunded => 3u32,
        }
    }

    /// The numeric code of this status.
    pub fn code(self) -> (code: u32)
        ensures
            code == self.spec_code(),
    {
        match self {
            DisputeStatus::Filed => 0,
            DisputeStatus::UnderReview => 1,
            DisputeStatus::Resolved => 2,
            DisputeStatus::Refunded => 3,
        }
    }

    /// The status with the numeric code `code`, if there is one.
    pub fn from_code(code: u32) -> (status: Option<DisputeStatus>)
        ensures
            match status {
                Some(s) => s.spec_code() == code,
                None => code > 3,
            },
    {
        if code == 0 {
            Some(DisputeStatus::Filed)
        } else if code == 1 {
            Some(DisputeStatus::UnderReview)
        } else if code == 2 {
            Some(DisputeStatus::Resolved)
        } else if code == 3 {
            Some(DisputeStatus::Refunded)
        } else {
            None
        }
    }
}

/// One dispute on record.
#[derive(Debug)]
pub struct Dispute {
    pub dispute_id: String,
    pub claimant: Address,
    pub respondent: Address,
    pub amount: i128,
    pub reason: String,
    pub evidence: String,
    pub filed_at: u64,
    pub resolution_deadline: u64,
    pub status: DisputeStatus,
}

/// One dispute as plain values.
pub struct DisputeView {
    pub dispute_id: Seq<char>,
    pub claimant: Seq<char>,
    pub respondent: Seq<char>,
    pub amount: int,
    pub reason: Seq<char>,
    pub evidence: Seq<char>,
    pub filed_at: int,
    pub resolution_deadline: int,
    pub status: DisputeStatus,
}

impl View for Dispute {
    type V = DisputeView;

    open spec fn view(&self) -> DisputeView {
        DisputeView {
            dispute_id: self.dispute_id@,
            claimant: self.claimant@,
            respondent: self.respondent@,
            amount: self.amount as int,
            reason: self.reason@,
            evidence: self.evidence@,
            filed_at: self.filed_at as int,
            resolution_deadline: self.resolution_deadline as int,
            status: self.status,
        }
    }
}

impl Clone for Dispute {
    fn clone(&self) -> (copy: Dispute)
        ensures
            copy@ == self@,
    {
        Dispute {
            dispute_id: self.dispute_id.clone(),
            claimant: self.claimant.clone(),
            respondent: self.respondent.clone(),
            amount: self.amount,
            reason: self.reason.clone(),
            evidence: self.evidence.clone(),
            filed_at: self.filed_at,
            resolution_deadline: self.resolution_deadline,
            status: self.status,
        }
    }
}

/// The outcome of a dispute: who is to receive the disputed amount.
#[derive(Debug)]
pub struct Ruling {
    pub recipient: Address,
    pub amount: i128,
}

/// The dispute registry's state.
pub struct DisputeResolverContract {
    owner: Address,
    dispute_window: u64,
    disputes: Table<Dispute>,
    paused: bool,
}

/// The dispute registry's state as plain values.
pub struct RegistryView {
    pub owner: Seq<char>,
    pub dispute_window: int,
    pub disputes: Map<Seq<char>, DisputeView>,
    pub paused: bool,
}

impl View for DisputeResolverContract {
    type V = RegistryView;

    closed spec fn view(&self) -> RegistryView {
        RegistryView {
            owner: self.owner@,
            dispute_window: self.dispute_window as int,
            disputes: self.disputes@.map_values(|dispute: Dispute| dispute@),
            paused: self.paused,
        }
    }
}

/// How `file_dispute` decides: the resolution deadline, or the refusal.
pub open spec fn filing_decision(
    state: RegistryView,
    caller: Seq<char>,
    id: Seq<char>,
    claimant: Seq<char>,
    amount: int,
    now: int,
) -> Result<int, DisputeError> {
    if amount <= 0 {
        Err(DisputeError::InvalidAmount)
    } else if caller != claimant {
        Err(DisputeError::Unauthorized)
    } else if now + state.dispute_window > u64::MAX {
        Err(DisputeError::InvalidAmount)
    } else if state.disputes.contains_key(id) {
        Err(DisputeError::DuplicateId)
    } else {
        Ok(now + state.dispute_window)
    }
}

/// How `resolve_dispute` decides: the dispute to rule on, or the refusal.
pub open spec fn ruling_decision(state: RegistryView, caller: Seq<char>, id: Seq<char>) -> Result<
    DisputeView,
    DisputeError,
> {
    if caller != state.owner {
        Err(DisputeError::Unauthorized)
    } else if !state.disputes.contains_key(id) {
        Err(DisputeError::DisputeNotFound)
    } else if state.disputes[id].status.terminal() {
        Err(DisputeError::AlreadyResolved)
    } else {
        Ok(state.disputes[id])
    }
}

/// How `refund_on_timeout` decides: the dispute to refund, or the refusal.
pub open spec fn timeout_decision(state: RegistryView, id: Seq<char>, now: int) -> Result<
    DisputeView,
    DisputeError,
> {
    if !state.disputes.contains_key(id) {
        Err(DisputeError::DisputeNotFound)
    } else if state.disputes[id].status.terminal() {
        Err(DisputeError::AlreadyResolved)
    } else if now < state.disputes[id].resolution_deadline {
        Err(DisputeError::NotYetResolvable)
    } else {
        Ok(state.disputes[id])
    }
}

/// The registry with the dispute under `id` moved to `status`.
pub open spec fn with_status(state: RegistryView, id: Seq<char>, status: DisputeStatus) -> RegistryView {
    RegistryView {
        disputes: state.disputes.insert(id, DisputeView { status, ..state.disputes[id] }),
        ..state
    }
}

/// Whether every dispute has a positive amount and is filed under its own id.
pub open spec fn disputes_are_sound(state: RegistryView) -> bool {
    forall|id: Seq<char>| #[trigger]
        state.disputes.contains_key(id) ==> state.disputes[id].dispute_id == id
            && state.disputes[id].amount > 0
}

/// The ids of a list of disputes, in order.
pub open spec fn dispute_ids(disputes: Seq<Dispute>) -> Seq<Seq<char>> {
    disputes.map_values(|dispute: Dispute| dispute.dispute_id@)
}

/// A list of disputes as plain values, in order.
pub open spec fn dispute_views(disputes: Seq<Dispute>) -> Seq<DisputeView> {
    disputes.map_values(|dispute: Dispute| dispute@)
}

/// Whether every dispute of the list is over a positive amount.
pub open spec fn amounts_positive(disputes: Seq<Dispute>) -> bool {
    forall|i: int| 0 <= i < disputes.len() ==> (#[trigger] disputes[i]).amount > 0
}

/// Once a dispute is resolved or refunded, a ruling by the administrator and
/// a timeout refund are both refused with `AlreadyResolved`, at every tick.
pub proof fn lemma_terminal_is_final(state: RegistryView, id: Seq<char>, now: int)
    requires
        state.disputes.contains_key(id),
        state.disputes[id].status.terminal(),
    ensures
        ruling_decision(state, state.owner, id) == Err::<DisputeView, DisputeError>(
            DisputeError::AlreadyResolved,
        ),
        timeout_decision(state, id, now) == Err::<DisputeView, DisputeError>(
            DisputeError::AlreadyResolved,
        ),
{
}

/// A successful ruling leaves the dispute in a state that refuses every later
/// ruling and every later timeout refund.
pub proof fn lemma_ruling_is_final(state: RegistryView, caller: Seq<char>, id: Seq<char>, later: int)
    requires
        ruling_decision(state, caller, id) is Ok,
    ensures
        with_status(state, id, DisputeStatus::Resolved).disputes[id].status.terminal(),
        ruling_decision(with_status(state, id, DisputeStatus::Resolved), caller, id) == Err::<
            DisputeView,
            DisputeError,
        >(DisputeError::AlreadyResolved),
        timeout_decision(with_status(state, id, DisputeStatus::Resolved), id, later) == Err::<
            DisputeView,
            DisputeError,
        >(DisputeError::AlreadyResolved),
{
}

/// A successful timeout refund leaves the dispute in a state that refuses
/// every later ruling by the administrator and every later timeout refund.
pub proof fn lemma_timeout_is_final(state: RegistryView, id: Seq<char>, now: int, later: int)
    requires
        timeout_decision(state, id, now) is Ok,
    ensures
        with_status(state, id, DisputeStatus::Refunded).disputes[id].status.terminal(),
        ruling_decision(with_status(state, id, DisputeStatus::Refunded), state.owner, id) == Err::<
            DisputeView,
            DisputeError,
        >(DisputeError::AlreadyResolved),
        timeout_decision(with_status(state, id, DisputeStatus::Refunded), id, later) == Err::<
            DisputeView,
            DisputeError,
        >(DisputeError::AlreadyResolved),
{
}

/// For a dispute that is neither resolved nor refunded, the timeout refund is
/// refused with `NotYetResolvable` at every tick before the deadline and
/// granted at every tick from the deadline on.
pub proof fn lemma_timeout_ordering(state: RegistryView, id: Seq<char>, now: int)
    requires
        state.disputes.contains_key(id),
        !state.disputes[id].status.terminal(),
    ensures
        now < state.disputes[id].resolution_deadline ==> timeout_decision(state, id, now) == Err::<
            DisputeView,
            DisputeError,
        >(DisputeError::NotYetResolvable),
        now >= state.disputes[id].resolution_deadline ==> timeout_decision(state, id, now) == Ok::<
            DisputeView,
            DisputeError,
        >(state.disputes[id]),
{
}

impl DisputeResolverContract {
    #[verifier::type_invariant]
    spec fn well_formed(self) -> bool {
        forall|id: Seq<char>| #[trigger]
            self.disputes@.contains_key(id) ==> self.disputes@[id].dispute_id@ == id
                && self.disputes@[id].amount > 0
    }

    /// An empty registry administered by `owner`, in which a dispute becomes
    /// refundable `dispute_window_ledgers` ticks after its filing.
    pub fn new(owner: Address, dispute_window_ledgers: u64) -> (registry: DisputeResolverContract)
        ensures
            registry@ == (RegistryView {
                owner: owner@,
                dispute_window: dispute_window_ledgers as int,
                disputes: Map::empty(),
                paused: false,
            }),
    {
        let registry = DisputeResolverContract {
            owner,
            dispute_window: dispute_window_ledgers,
            disputes: Table::new(),
            paused: false,
        };
        assert(registry@.disputes =~= Map::<Seq<char>, DisputeView>::empty());
        registry
    }

    /// The registry administered by `owner` that holds exactly `disputes`,
    /// each under its own id.
    ///
    /// A dispute without a positive amount is refused with `InvalidAmount`;
    /// failing that, an id that occurs twice is refused with `DuplicateId`.
    pub fn restore(
        owner: Address,
        dispute_window_ledgers: u64,
        paused: bool,
        disputes: Vec<Dispute>,
    ) -> (made: Result<DisputeResolverContract, DisputeError>)
        ensures
            match made {
                Ok(registry) => {
                    &&& amounts_positive(disputes@)
                    &&& registry@.owner == owner@
                    &&& registry@.dispute_window == dispute_window_ledgers
                    &&& registry@.paused == paused
                    &&& holds_exactly(
                        registry@.disputes,
                        dispute_ids(disputes@),
                        dispute_views(disputes@),
                    )
                },
                Err(e) => if amounts_positive(disputes@) {
                    e == DisputeError::DuplicateId && !dispute_ids(disputes@).no_duplicates()
                } else {
                    e == DisputeError::InvalidAmount
                },
            },
    {
        let mut keys: Vec<String> = Vec::new();
        let mut i: usize = 0;
        while i < disputes.len()
            invariant
                i <= disputes@.len(),
                keys@.len() == i,
                forall|j: int| 0 <= j < i ==> (#[trigger] disputes@[j]).amount > 0,
                forall|j: int| 0 <= j < i ==> (#[trigger] keys@[j])@ == disputes@[j].dispute_id@,
            decreases disputes@.len() - i,
        {
            if disputes[i].amount <= 0 {
                return Err(DisputeError::InvalidAmount);
            }
            keys.push(disputes[i].dispute_id.clone());
            i += 1;
        }
        assert(texts(keys@) =~= dispute_ids(disputes@));
        match Table::from_lists(keys, disputes) {
            None => Err(DisputeError::DuplicateId),
            Some(table) => {
                proof {
                    let ids = dispute_ids(disputes@);
                    assert forall|id: Seq<char>| #[trigger]
                        table@.contains_key(id) implies table@[id].dispute_id@ == id
                        && table@[id].amount > 0 by {
                        let at = choose|i: int| 0 <= i < ids.len() && ids[i] == id;
                        assert(ids.contains(id));
                        assert(table@.contains_key(ids[at]));
                        assert(table@[id] == disputes@[at]);
                    }
                }
                let registry = DisputeResolverContract {
                    owner,
                    dispute_window: dispute_window_ledgers,
                    disputes: table,
                    paused,
                };
                proof {
                    let ids = dispute_ids(disputes@);
                    assert forall|i: int| 0 <= i < ids.len() implies registry@.disputes.contains_key(
                        #[trigger] ids[i],
                    ) && registry@.disputes[ids[i]] == dispute_views(disputes@)[i] by {
                        assert(table@.contains_key(ids[i]));
                    }
                    assert forall|id: Seq<char>| #[trigger]
                        registry@.disputes.contains_key(id) implies ids.contains(id) by {
                        assert(table@.contains_key(id));
                    }
                }
                Ok(registry)
            },
        }
    }

    /// Takes the registry apart into its administrator, its window, whether
    /// it is paused, and its disputes.
    pub fn into_parts(self) -> (parts: (Address, u64, bool, Vec<Dispute>))
        ensures
            parts.0@ == self@.owner,
            parts.1 == self@.dispute_window,
            parts.2 == self@.paused,
            amounts_positive(parts.3@),
            holds_exactly(self@.disputes, dispute_ids(parts.3@), dispute_views(parts.3@)),
    {
        proof {
            use_type_invariant(&self);
        }
        let ghost held = self.disputes@;
        let (keys, disputes) = self.disputes.into_lists();
        proof {
            let ids = texts(keys@);
            assert forall|i: int| 0 <= i < disputes@.len() implies (#[trigger] disputes@[i]).amount
                > 0 && disputes@[i].dispute_id@ == ids[i] by {
                assert(held.contains_key(ids[i]));
            }
            assert(dispute_ids(disputes@) =~= ids);
            assert forall|i: int| 0 <= i < ids.len() implies self@.disputes.contains_key(
                #[trigger] ids[i],
            ) && self@.disputes[ids[i]] == dispute_views(disputes@)[i] by {
                assert(held.contains_key(ids[i]));
            }
            assert forall|id: Seq<char>| #[trigger]
                self@.disputes.contains_key(id) implies ids.contains(id) by {
                assert(held.contains_key(id));
            }
        }
        (self.owner, self.dispute_window, self.paused, disputes)
    }

    /// The party that administers this registry.
    pub fn get_owner(&self) -> (owner: Address)
        ensures
            owner@ == self@.owner,
    {
        self.owner.clone()
    }

    /// The number of ticks between a filing and its resolution deadline.
    pub fn get_dispute_window(&self) -> (window: u64)
        ensures
            window == self@.dispute_window,
    {
        self.dispute_window
    }

    /// Files a dispute over `amount` under `dispute_id` at tick `now`.
    ///
    /// The amount must be positive, `caller` must be `claimant`, the deadline
    /// `now + window` must be a representable tick, and the id must be new.
    /// On success the dispute is on record as `Filed` and its resolution
    /// deadline is returned. On any refusal nothing changes.
    pub fn file_dispute(
        &mut self,
        caller: &Address,
        dispute_id: String,
        claimant: Address,
        respondent: Address,
        amount: i128,
        reason: String,
        evidence: String,
        now: u64,
    ) -> (done: Result<u64, DisputeError>)
        ensures
            match filing_decision(
                old(self)@,
                caller@,
                dispute_id@,
                claimant@,
                amount as int,
                now as int,
            ) {
                Ok(deadline) => done == Ok::<u64, DisputeError>(deadline as u64) && final(self)@
                    == (RegistryView {
                    disputes: old(self)@.disputes.insert(
                        dispute_id@,
                        DisputeView {
                            dispute_id: dispute_id@,
                            claimant: claimant@,
                            respondent: respondent@,
                            amount: amount as int,
                            reason: reason@,
                            evidence: evidence@,
                            filed_at: now as int,
                            resolution_deadline: deadline,
                            status: DisputeStatus::Filed,
                        },
                    ),
                    ..old(self)@
                }),
                Err(e) => done == Err::<u64, DisputeError>(e) && final(self)@ == old(self)@,
            },
            disputes_are_sound(final(self)@),
    {
        proof {
            use_type_invariant(&*self);
        }
        if amount <= 0 {
            return Err(DisputeError::InvalidAmount);
        }
        if !caller.same(&claimant) {
            return Err(DisputeError::Unauthorized);
        }
        if self.dispute_window > u64::MAX - now {
            return Err(DisputeError::InvalidAmount);
        }
        let resolution_deadline: u64 = now + self.dispute_window;
        if self.disputes.contains_key(&dispute_id) {
            return Err(DisputeError::DuplicateId);
        }
        let dispute = Dispute {
            dispute_id: dispute_id.clone(),
            claimant,
            respondent,
            amount,
            reason,
            evidence,
            filed_at: now,
            resolution_deadline,
            status: DisputeStatus::Filed,
        };
        let mut disputes: Table<Dispute> = Table::new();
        std::mem::swap(&mut disputes, &mut self.disputes);
        disputes.set(dispute_id, dispute);
        self.disputes = disputes;
        assert(self@.disputes =~= old(self)@.disputes.insert(dispute_id@, dispute@));
        Ok(resolution_deadline)
    }

    /// Rules on the dispute under `dispute_id`.
    ///
    /// Only the administrator may rule, and only on a dispute that is neither
    /// resolved nor refunded. On success the dispute is `Resolved` and the
    /// ruling names the claimant as recipient if `refund_claimant`, else the
    /// respondent. On any refusal nothing changes.
    pub fn resolve_dispute(&mut self, caller: &Address, dispute_id: &String, refund_claimant: bool) -> (done:
        Result<Ruling, DisputeError>)
        ensures
            match ruling_decision(old(self)@, caller@, dispute_id@) {
                Ok(dispute) => {
                    &&& done is Ok
                    &&& done->Ok_0.recipient@ == (if refund_claimant {
                        dispute.claimant
                    } else {
                        dispute.respondent
                    })
                    &&& done->Ok_0.amount == dispute.amount
                    &&& final(self)@ == with_status(
                        old(self)@,
                        dispute_id@,
                        DisputeStatus::Resolved,
                    )
                },
                Err(e) => done == Err::<Ruling, DisputeError>(e) && final(self)@ == old(self)@,
            },
            disputes_are_sound(final(self)@),
    {
        proof {
            use_type_invariant(&*self);
        }
        if !caller.same(&self.owner) {
            return Err(DisputeError::Unauthorized);
        }
        let terminal = match self.disputes.get(dispute_id) {
            None => {
                return Err(DisputeError::DisputeNotFound);
            },
            Some(dispute) => dispute.status.is_terminal(),
        };
        if terminal {
            return Err(DisputeError::AlreadyResolved);
        }
        let mut disputes: Table<Dispute> = Table::new();
        std::mem::swap(&mut disputes, &mut self.disputes);
        let taken = disputes.remove(dispute_id);
        match taken {
            Some(mut dispute) => {
                let recipient = if refund_claimant {
                    dispute.claimant.clone()
                } else {
                    dispute.respondent.clone()
                };
                let amount = dispute.amount;
                dispute.status = DisputeStatus::Resolved;
                disputes.set(dispute.dispute_id.clone(), dispute);
                self.disputes = disputes;
                assert(self@.disputes =~= with_status(
                    old(self)@,
                    dispute_id@,
                    DisputeStatus::Resolved,
                ).disputes);
                Ok(Ruling { recipient, amount })
            },
            None => {
                self.disputes = disputes;
                Err(DisputeError::DisputeNotFound)
            },
        }
    }

    /// Refunds the dispute under `dispute_id` to its claimant once the
    /// resolution deadline has come. Anyone may ask.
    ///
    /// A dispute already resolved or refunded is refused with
    /// `AlreadyResolved`; before the deadline the refusal is
    /// `NotYetResolvable`. On success the dispute is `Refunded` and the ruling
    /// names the claimant. On any refusal nothing changes.
    pub fn refund_on_timeout(&mut self, dispute_id: &String, now: u64) -> (done: Result<
        Ruling,
        DisputeError,
    >)
        ensures
            match timeout_decision(old(self)@, dispute_id@, now as int) {
                Ok(dispute) => {
                    &&& done is Ok
                    &&& done->Ok_0.recipient@ == dispute.claimant
                    &&& done->Ok_0.amount == dispute.amount
                    &&& final(self)@ == with_status(
                        old(self)@,
                        dispute_id@,
                        DisputeStatus::Refunded,
                    )
                },
                Err(e) => done == Err::<Ruling, DisputeError>(e) && final(self)@ == old(self)@,
            },
            disputes_are_sound(final(self)@),
    {
        proof {
            use_type_invariant(&*self);
        }
        let (terminal, deadline) = match self.disputes.get(dispute_id) {
            None => {
                return Err(DisputeError::DisputeNotFound);
            },
            Some(dispute) => (dispute.status.is_terminal(), dispute.resolution_deadline),
        };
        if terminal {
            return Err(DisputeError::AlreadyResolved);
        }
        if now < deadline {
            return Err(DisputeError::NotYetResolvable);
        }
        let mut disputes: Table<Dispute> = Table::new();
        std::mem::swap(&mut disputes, &mut self.disputes);
        let taken = disputes.remove(dispute_id);
        match taken {
            Some(mut dispute) => {
                let recipient = dispute.claimant.clone();
                let amount = dispute.amount;
                dispute.status = DisputeStatus::Refunded;
                disputes.set(dispute.dispute_id.clone(), dispute);
                self.disputes = disputes;
                assert(self@.disputes =~= with_status(
                    old(self)@,
                    dispute_id@,
                    DisputeStatus::Refunded,
                ).disputes);
                Ok(Ruling { recipient, amount })
            },
            None => {
                self.disputes = disputes;
                Err(DisputeError::DisputeNotFound)
            },
        }
    }

    /// The dispute under `dispute_id`, or `DisputeNotFound`.
    pub fn get_dispute(&self, dispute_id: &String) -> (found: Result<Dispute, DisputeError>)
        ensures
            match found {
                Ok(dispute) => self@.disputes.contains_key(dispute_id@) && dispute@
                    == self@.disputes[dispute_id@],
                Err(e) => !self@.disputes.contains_key(dispute_id@) && e
                    == DisputeError::DisputeNotFound,
            },
            disputes_are_sound(self@),
    {
        proof {
            use_type_invariant(self);
        }
        match self.disputes.get(dispute_id) {
            Some(dispute) => Ok(dispute.clone()),
            None => Err(DisputeError::DisputeNotFound),
        }
    }

    /// Whether the dispute under `dispute_id` has reached its resolution
    /// deadline at tick `now`. An id without a dispute has not.
    pub fn is_resolvable(&self, dispute_id: &String, now: u64) -> (resolvable: bool)
        ensures
            resolvable == (self@.disputes.contains_key(dispute_id@) && now
                >= self@.disputes[dispute_id@].resolution_deadline),
    {
        match self.disputes.get(dispute_id) {
            Some(dispute) => now >= dispute.resolution_deadline,
            None => false,
        }
    }

    /// Whether the registry is paused.
    pub fn paused(&self) -> (paused: bool)
        ensures
            paused == self@.paused,
    {
        self.paused
    }

    /// Pauses the registry. Only the administrator may, and only while it is
    /// not paused. On any refusal nothing changes.
    pub fn pause(&mut self, caller: &Address) -> (done: Result<(), PauseError>)
        ensures
            done == (if caller@ != old(self)@.owner {
                Err::<(), PauseError>(PauseError::Unauthorized)
            } else if old(self)@.paused {
                Err(PauseError::EnforcedPause)
            } else {
                Ok(())
            }),
            done is Ok ==> final(self)@ == (RegistryView { paused: true, ..old(self)@ }),
            done is Err ==> final(self)@ == old(self)@,
    {
        proof {
            use_type_invariant(&*self);
        }
        if !caller.same(&self.owner) {
            return Err(PauseError::Unauthorized);
        }
        if self.paused {
            return Err(PauseError::EnforcedPause);
        }
        self.paused = true;
        Ok(())
    }

    /// Resumes the registry. Only the administrator may, and only while it is
    /// paused. On any refusal nothing changes.
    pub fn unpause(&mut self, caller: &Address) -> (done: Result<(), PauseError>)
        ensures
            done == (if caller@ != old(self)@.owner {
                Err::<(), PauseError>(PauseError::Unauthorized)
            } else if !old(self)@.paused {
                Err(PauseError::ExpectedPause)
            } else {
                Ok(())
            }),
            done is Ok ==> final(self)@ == (RegistryView { paused: false, ..old(self)@ }),
            done is Err ==> final(self)@ == old(self)@,
    {
        proof {
            use_type_invariant(&*self);
        }
        if !caller.same(&self.owner) {
            return Err(PauseError::Unauthorized);
        }
        if !self.paused {
            return Err(PauseError::ExpectedPause);
        }
        self.paused = false;
        Ok(())
    }
}

} // verus!
