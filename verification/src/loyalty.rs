//! The loyalty program: points per customer, a tier by points, and a
//! numbered reward for every award.

use vstd::prelude::*;
use crate::address::Address;
use crate::table::{holds_exactly, texts, Table};

verus! {

/// Why the loyalty program refused a call.
#[derive(Copy, Clone, Debug, PartialEq, Eq, PartialOrd, Ord, Hash, Structural)]
pub enum LoyaltyError {
    Unauthorized,
    InvalidPoints,
    NoRewardEarned,
    InvalidTier,
}

impl LoyaltyError {
    /// The numeric code of this error.
    pub fn code(self) -> (code: u32)
        ensures
            code == match self {
                LoyaltyError::Unauthorized => 1u32,
                LoyaltyError::InvalidPoints => 2u32,
                LoyaltyError::NoRewardEarned => 3u32,
                LoyaltyError::InvalidTier => 4u32,
            },
    {
        match self {
            LoyaltyError::Unauthorized => 1,
            LoyaltyError::InvalidPoints => 2,
            LoyaltyError::NoRewardEarned => 3,
            LoyaltyError::InvalidTier => 4,
        }
    }
}

/// A customer's standing by points.
#[derive(Copy, Clone, Debug, PartialEq, Eq, Hash, Structural)]
pub enum LoyaltyTier {
    /// Below 1000 points.
    Bronze,
    /// From 1000 points.
    Silver,
    /// From 5000 points.
    Gold,
    /// From 10000 points.
    Platinum,
}

/// The tier that `points` points earn.
pub open spec fn tier_of(points: int) -> LoyaltyTier {
    if points < 1000 {
        LoyaltyTier::Bronze
    } else if points < 5000 {
        LoyaltyTier::Silver
    } else if points < 10000 {
        LoyaltyTier::Gold
    } else {
        LoyaltyTier::Platinum
    }
}

impl LoyaltyTier {
    /// The numeric code of this tier.
    pub open spec fn spec_code(self) -> int {
        match self {
            LoyaltyTier::Bronze => 0,
            LoyaltyTier::Silver => 1,
            LoyaltyTier::Gold => 2,
            LoyaltyTier::Platinum => 3,
        }
    }

    /// The numeric code of this tier.
    pub fn code(self) -> (code: u32)
        ensures
            code == self.spec_code(),
    {
        match self {
            LoyaltyTier::Bronze => 0,
            LoyaltyTier::Silver => 1,
            LoyaltyTier::Gold => 2,
            LoyaltyTier::Platinum => 3,
        }
    }

    /// The tier that `points` points earn.
    pub fn from_points(points: u32) -> (tier: LoyaltyTier)
        ensures
            tier == tier_of(points as int),
    {
        if points < 1000 {
            LoyaltyTier::Bronze
        } else if points < 5000 {
            LoyaltyTier::Silver
        } else if points < 10000 {
            LoyaltyTier::Gold
        } else {
            LoyaltyTier::Platinum
        }
    }
}

/// A reward issued for an award of points.
#[derive(Debug)]
pub struct LoyaltyReward {
    pub token_id: u32,
    pub owner: Address,
    pub points_earned: u32,
    pub tier: u32,
    pub transaction_id: String,
    pub issued_at: u64,
}

/// A reward as plain values.
pub struct RewardView {
    pub token_id: int,
    pub owner: Seq<char>,
    pub points_earned: int,
    pub tier: int,
    pub transaction_id: Seq<char>,
    pub issued_at: int,
}

impl View for LoyaltyReward {
    type V = RewardView;

    open spec fn view(&self) -> RewardView {
        RewardView {
            token_id: self.token_id as int,
            owner: self.owner@,
            points_earned: self.points_earned as int,
            tier: self.tier as int,
            transaction_id: self.transaction_id@,
            issued_at: self.issued_at as int,
        }
    }
}

impl Clone for LoyaltyReward {
    fn clone(&self) -> (copy: LoyaltyReward)
        ensures
            copy@ == self@,
    {
        LoyaltyReward {
            token_id: self.token_id,
            owner: self.owner.clone(),
            points_earned: self.points_earned,
            tier: self.tier,
            transaction_id: self.transaction_id.clone(),
            issued_at: self.issued_at,
        }
    }
}

/// The loyalty program's state.
pub struct LoyaltyProgramContract {
    owner: Address,
    customer_points: Table<u32>,
    rewards: Vec<LoyaltyReward>,
}

/// The loyalty program's state as plain values: the points of every customer
/// who has any, and the rewards in the order they were issued.
pub struct LoyaltyView {
    pub owner: Seq<char>,
    pub points: Map<Seq<char>, int>,
    pub rewards: Seq<RewardView>,
}

impl LoyaltyView {
    /// The points of `customer`: none for a customer not on record.
    pub open spec fn points_of(self, customer: Seq<char>) -> int {
        if self.points.contains_key(customer) {
            self.points[customer]
        } else {
            0
        }
    }

    /// The state with the points of `customer` set to `points`; a customer
    /// left with none is taken off the record.
    pub open spec fn with_points(self, customer: Seq<char>, points: int) -> LoyaltyView {
        LoyaltyView {
            points: if points > 0 {
                self.points.insert(customer, points)
            } else {
                self.points.remove(customer)
            },
            ..self
        }
    }

    /// The state with `reward` issued after all earlier ones.
    pub open spec fn with_reward(self, reward: RewardView) -> LoyaltyView {
        LoyaltyView { rewards: self.rewards.push(reward), ..self }
    }
}

impl View for LoyaltyProgramContract {
    type V = LoyaltyView;

    closed spec fn view(&self) -> LoyaltyView {
        LoyaltyView {
            owner: self.owner@,
            points: self.customer_points@.map_values(|points: u32| points as int),
            rewards: self.rewards@.map_values(|reward: LoyaltyReward| reward@),
        }
    }
}

/// How `award_points` decides: the customer's new total, or the refusal.
pub open spec fn award_decision(
    state: LoyaltyView,
    caller: Seq<char>,
    customer: Seq<char>,
    points: int,
) -> Result<int, LoyaltyError> {
    if caller != state.owner {
        Err(LoyaltyError::Unauthorized)
    } else if points <= 0 {
        Err(LoyaltyError::InvalidPoints)
    } else if state.points_of(customer) + points > u32::MAX {
        Err(LoyaltyError::InvalidPoints)
    } else if state.rewards.len() >= u32::MAX {
        Err(LoyaltyError::NoRewardEarned)
    } else {
        Ok(state.points_of(customer) + points)
    }
}

/// The reward that an award issues: the next number, to the customer, with
/// the customer's new total and its tier.
pub open spec fn reward_for(
    state: LoyaltyView,
    customer: Seq<char>,
    transaction_id: Seq<char>,
    total: int,
    now: int,
) -> RewardView {
    RewardView {
        token_id: state.rewards.len() as int + 1,
        owner: customer,
        points_earned: total,
        tier: tier_of(total).spec_code(),
        transaction_id,
        issued_at: now,
    }
}

/// The state that `award_points` leaves: on a refusal, the state as it was.
pub open spec fn state_after_award(
    state: LoyaltyView,
    caller: Seq<char>,
    customer: Seq<char>,
    transaction_id: Seq<char>,
    points: int,
    now: int,
) -> LoyaltyView {
    match award_decision(state, caller, customer, points) {
        Ok(total) => state.with_points(customer, total).with_reward(
            reward_for(state, customer, transaction_id, total, now),
        ),
        Err(_) => state,
    }
}

/// How `redeem_points` decides: the customer's remaining points, or the refusal.
pub open spec fn redemption_decision(
    state: LoyaltyView,
    caller: Seq<char>,
    customer: Seq<char>,
    points: int,
) -> Result<int, LoyaltyError> {
    if caller != state.owner {
        Err(LoyaltyError::Unauthorized)
    } else if state.points_of(customer) < points {
        Err(LoyaltyError::InvalidPoints)
    } else {
        Ok(state.points_of(customer) - points)
    }
}

/// Whether the rewards are numbered from one in the order of issue, and every
/// customer on record has points.
pub open spec fn ledger_is_sound(state: LoyaltyView) -> bool {
    &&& state.rewards.len() <= u32::MAX
    &&& forall|i: int|
        0 <= i < state.rewards.len() ==> (#[trigger] state.rewards[i]).token_id == i + 1
    &&& forall|customer: Seq<char>| #[trigger]
        state.points.contains_key(customer) ==> 0 < state.points[customer] <= u32::MAX
}

/// The textual keys of a list of addresses, in order.
pub open spec fn address_keys(addresses: Seq<Address>) -> Seq<Seq<char>> {
    addresses.map_values(|address: Address| address@)
}

/// A list of point counts as plain numbers, in order.
pub open spec fn point_counts(points: Seq<u32>) -> Seq<int> {
    points.map_values(|count: u32| count as int)
}

/// A list of rewards as plain values, in order.
pub open spec fn reward_views(rewards: Seq<LoyaltyReward>) -> Seq<RewardView> {
    rewards.map_values(|reward: LoyaltyReward| reward@)
}

/// Whether the two lists give every customer once, each with points.
pub open spec fn points_are_valid(customers: Seq<Address>, points: Seq<u32>) -> bool {
    &&& customers.len() == points.len()
    &&& forall|i: int| 0 <= i < points.len() ==> #[trigger] points[i] > 0
    &&& address_keys(customers).no_duplicates()
}

/// Whether the rewards are numbered from one in their order.
pub open spec fn rewards_are_numbered(rewards: Seq<LoyaltyReward>) -> bool {
    &&& rewards.len() <= u32::MAX
    &&& forall|i: int| 0 <= i < rewards.len() ==> (#[trigger] rewards[i]).token_id == i + 1
}

impl LoyaltyProgramContract {
    #[verifier::type_invariant]
    spec fn well_formed(self) -> bool {
        &&& self.rewards@.len() <= u32::MAX
        &&& forall|i: int|
            0 <= i < self.rewards@.len() ==> (#[trigger] self.rewards@[i]).token_id == i + 1
        &&& forall|customer: Seq<char>| #[trigger]
            self.customer_points@.contains_key(customer) ==> self.customer_points@[customer] > 0
    }

    /// A program administered by `owner`, with no points and no rewards.
    pub fn new(owner: Address) -> (program: LoyaltyProgramContract)
        ensures
            program@ == (LoyaltyView { owner: owner@, points: Map::empty(), rewards: Seq::empty() }),
    {
        let program = LoyaltyProgramContract {
            owner,
            customer_points: Table::new(),
            rewards: Vec::new(),
        };
        assert(program@.points =~= Map::<Seq<char>, int>::empty());
        assert(program@.rewards =~= Seq::<RewardView>::empty());
        program
    }

    /// The program administered by `owner` in which each of `customers` has
    /// the points at the same position of `points`, and `rewards` are the
    /// rewards issued so far.
    ///
    /// Lists of different lengths, a customer without points and a customer
    /// named twice are refused with `InvalidPoints`; failing that, rewards
    /// not numbered from one in their order are refused with
    /// `NoRewardEarned`.
    pub fn restore(
        owner: Address,
        customers: Vec<Address>,
        points: Vec<u32>,
        rewards: Vec<LoyaltyReward>,
    ) -> (made: Result<LoyaltyProgramContract, LoyaltyError>)
        ensures
            match made {
                Ok(program) => {
                    &&& points_are_valid(customers@, points@)
                    &&& rewards_are_numbered(rewards@)
                    &&& program@.owner == owner@
                    &&& holds_exactly(
                        program@.points,
                        address_keys(customers@),
                        point_counts(points@),
                    )
                    &&& program@.rewards == reward_views(rewards@)
                },
                Err(e) => if points_are_valid(customers@, points@) {
                    e == LoyaltyError::NoRewardEarned && !rewards_are_numbered(rewards@)
                } else {
                    e == LoyaltyError::InvalidPoints
                },
            },
    {
        if customers.len() != points.len() {
            return Err(LoyaltyError::InvalidPoints);
        }
        let mut keys: Vec<String> = Vec::new();
        let mut i: usize = 0;
        while i < customers.len()
            invariant
                customers@.len() == points@.len(),
                i <= customers@.len(),
                keys@.len() == i,
                forall|j: int| 0 <= j < i ==> #[trigger] points@[j] > 0,
                forall|j: int| 0 <= j < i ==> (#[trigger] keys@[j])@ == customers@[j]@,
            decreases customers@.len() - i,
        {
            if points[i] == 0 {
                return Err(LoyaltyError::InvalidPoints);
            }
            keys.push(customers[i].key().clone());
            i += 1;
        }
        assert(texts(keys@) =~= address_keys(customers@));
        let table = match Table::from_lists(keys, points) {
            None => {
                return Err(LoyaltyError::InvalidPoints);
            },
            Some(table) => table,
        };
        assert(points_are_valid(customers@, points@));
        if rewards.len() > u32::MAX as usize {
            return Err(LoyaltyError::NoRewardEarned);
        }
        let mut n: usize = 0;
        while n < rewards.len()
            invariant
                points_are_valid(customers@, points@),
                holds_exactly(table@, address_keys(customers@), points@),
                rewards@.len() <= u32::MAX,
                n <= rewards@.len(),
                forall|j: int| 0 <= j < n ==> (#[trigger] rewards@[j]).token_id == j + 1,
            decreases rewards@.len() - n,
        {
            if rewards[n].token_id as usize != n + 1 {
                return Err(LoyaltyError::NoRewardEarned);
            }
            n += 1;
        }
        proof {
            let names = address_keys(customers@);
            assert forall|customer: Seq<char>| #[trigger]
                table@.contains_key(customer) implies table@[customer] > 0 by {
                let at = choose|i: int| 0 <= i < names.len() && names[i] == customer;
                assert(names.contains(customer));
                assert(table@.contains_key(names[at]));
                assert(table@[customer] == points@[at]);
            }
        }
        let program = LoyaltyProgramContract { owner, customer_points: table, rewards };
        proof {
            let names = address_keys(customers@);
            assert forall|i: int| 0 <= i < names.len() implies program@.points.contains_key(
                #[trigger] names[i],
            ) && program@.points[names[i]] == point_counts(points@)[i] by {
                assert(table@.contains_key(names[i]));
            }
            assert forall|customer: Seq<char>| #[trigger]
                program@.points.contains_key(customer) implies names.contains(customer) by {
                assert(table@.contains_key(customer));
            }
        }
        Ok(program)
    }

    /// Takes the program apart into its administrator, its customers, their
    /// points at the same positions, and its rewards in the order of issue.
    pub fn into_parts(self) -> (parts: (Address, Vec<Address>, Vec<u32>, Vec<LoyaltyReward>))
        ensures
            parts.0@ == self@.owner,
            points_are_valid(parts.1@, parts.2@),
            holds_exactly(self@.points, address_keys(parts.1@), point_counts(parts.2@)),
            rewards_are_numbered(parts.3@),
            reward_views(parts.3@) == self@.rewards,
    {
        proof {
            use_type_invariant(&self);
        }
        let ghost held = self.customer_points@;
        let (keys, points) = self.customer_points.into_lists();
        let mut customers: Vec<Address> = Vec::new();
        let mut i: usize = 0;
        while i < keys.len()
            invariant
                i <= keys@.len(),
                customers@.len() == i,
                forall|j: int| 0 <= j < i ==> (#[trigger] customers@[j])@ == keys@[j]@,
            decreases keys@.len() - i,
        {
            customers.push(Address::new(keys[i].clone()));
            i += 1;
        }
        proof {
            let names = texts(keys@);
            assert(address_keys(customers@) =~= names);
            assert forall|i: int| 0 <= i < points@.len() implies #[trigger] points@[i] > 0 by {
                assert(held.contains_key(names[i]));
            }
            assert forall|i: int| 0 <= i < names.len() implies self@.points.contains_key(
                #[trigger] names[i],
            ) && self@.points[names[i]] == point_counts(points@)[i] by {
                assert(held.contains_key(names[i]));
            }
            assert forall|customer: Seq<char>| #[trigger]
                self@.points.contains_key(customer) implies names.contains(customer) by {
                assert(held.contains_key(customer));
            }
        }
        (self.owner, customers, points, self.rewards)
    }

    /// The party that administers this program.
    pub fn get_owner(&self) -> (owner: Address)
        ensures
            owner@ == self@.owner,
    {
        self.owner.clone()
    }

    /// The tier code that `points` points earn: 0 below 1000, 1 below 5000,
    /// 2 below 10000, 3 from there on.
    pub fn get_tier(points: u32) -> (tier: u32)
        ensures
            tier == tier_of(points as int).spec_code(),
    {
        if points < 1000 {
            0
        } else if points < 5000 {
            1
        } else if points < 10000 {
            2
        } else {
            3
        }
    }

    /// The points of `customer`; none for a customer not on record.
    pub fn get_customer_points(&self, customer: &Address) -> (points: u32)
        ensures
            points == self@.points_of(customer@),
    {
        match self.customer_points.get(customer.key()) {
            Some(points) => *points,
            None => 0,
        }
    }

    /// The tier code of `customer` by their points.
    pub fn get_customer_tier(&self, customer: &Address) -> (tier: u32)
        ensures
            tier == tier_of(self@.points_of(customer@)).spec_code(),
    {
        let points = self.get_customer_points(customer);
        Self::get_tier(points)
    }

    /// The number of rewards issued so far.
    pub fn get_total_rewards(&self) -> (total: u32)
        ensures
            total == self@.rewards.len(),
            ledger_is_sound(self@),
    {
        proof {
            use_type_invariant(self);
        }
        self.rewards.len() as u32
    }

    /// The reward numbered `token_id`, or `NoRewardEarned` where no reward
    /// has that number.
    pub fn get_reward(&self, token_id: u32) -> (found: Result<LoyaltyReward, LoyaltyError>)
        ensures
            match found {
                Ok(reward) => 1 <= token_id <= self@.rewards.len() && reward@
                    == self@.rewards[token_id - 1] && reward.token_id == token_id,
                Err(e) => !(1 <= token_id <= self@.rewards.len()) && e
                    == LoyaltyError::NoRewardEarned,
            },
    {
        proof {
            use_type_invariant(self);
        }
        if token_id == 0 || token_id as usize > self.rewards.len() {
            return Err(LoyaltyError::NoRewardEarned);
        }
        let at: usize = (token_id - 1) as usize;
        Ok(self.rewards[at].clone())
    }

    /// Issues the next reward, to `owner`, and returns its number.
    fn issue_reward_nft(
        &mut self,
        owner: Address,
        points_earned: u32,
        transaction_id: String,
        tier: u32,
        now: u64,
    ) -> (token_id: u32)
        requires
            old(self)@.rewards.len() < u32::MAX,
        ensures
            token_id == old(self)@.rewards.len() + 1,
            final(self)@ == old(self)@.with_reward(
                RewardView {
                    token_id: token_id as int,
                    owner: owner@,
                    points_earned: points_earned as int,
                    tier: tier as int,
                    transaction_id: transaction_id@,
                    issued_at: now as int,
                },
            ),
    {
        proof {
            use_type_invariant(&*self);
        }
        let token_id: u32 = self.rewards.len() as u32 + 1;
        let reward = LoyaltyReward {
            token_id,
            owner,
            points_earned,
            tier,
            transaction_id,
            issued_at: now,
        };
        let mut rewards: Vec<LoyaltyReward> = Vec::new();
        std::mem::swap(&mut rewards, &mut self.rewards);
        rewards.push(reward);
        self.rewards = rewards;
        assert(self@.rewards =~= old(self)@.rewards.push(reward@));
        token_id
    }

    /// Awards `points` points to `customer` for `transaction_id` at tick `now`.
    ///
    /// Only the administrator may award, and only a positive number of points
    /// that the customer's total can take. On success the customer's total
    /// grows by `points`, a reward is issued that records the new total and
    /// its tier, and the reward's number is returned. On any refusal nothing
    /// changes.
    pub fn award_points(
        &mut self,
        caller: &Address,
        customer: Address,
        transaction_id: String,
        points: u32,
        now: u64,
    ) -> (done: Result<u32, LoyaltyError>)
        ensures
            match award_decision(old(self)@, caller@, customer@, points as int) {
                Ok(total) => done == Ok::<u32, LoyaltyError>(
                    (old(self)@.rewards.len() + 1) as u32,
                ),
                Err(e) => done == Err::<u32, LoyaltyError>(e),
            },
            final(self)@ == state_after_award(
                old(self)@,
                caller@,
                customer@,
                transaction_id@,
                points as int,
                now as int,
            ),
            ledger_is_sound(final(self)@),
    {
        proof {
            use_type_invariant(&*self);
        }
        if !caller.same(&self.owner) {
            return Err(LoyaltyError::Unauthorized);
        }
        if points == 0 {
            return Err(LoyaltyError::InvalidPoints);
        }
        let current = self.get_customer_points(&customer);
        if points > u32::MAX - current {
            return Err(LoyaltyError::InvalidPoints);
        }
        if self.rewards.len() >= u32::MAX as usize {
            return Err(LoyaltyError::NoRewardEarned);
        }
        let total: u32 = current + points;
        let mut customer_points: Table<u32> = Table::new();
        std::mem::swap(&mut customer_points, &mut self.customer_points);
        customer_points.set(customer.key().clone(), total);
        self.customer_points = customer_points;
        assert(self@.points =~= old(self)@.with_points(customer@, total as int).points);
        let tier = Self::get_tier(total);
        let token_id = self.issue_reward_nft(customer, total, transaction_id, tier, now);
        Ok(token_id)
    }

    /// Takes `points_to_redeem` points off `customer`.
    ///
    /// Only the administrator may redeem, and no more than the customer has.
    /// On success the remaining points are returned; a customer left with
    /// none is taken off the record. On any refusal nothing changes.
    pub fn redeem_points(&mut self, caller: &Address, customer: &Address, points_to_redeem: u32) -> (done:
        Result<u32, LoyaltyError>)
        ensures
            match redemption_decision(old(self)@, caller@, customer@, points_to_redeem as int) {
                Ok(left) => done == Ok::<u32, LoyaltyError>(left as u32) && final(self)@ == old(
                    self,
                )@.with_points(customer@, left),
                Err(e) => done == Err::<u32, LoyaltyError>(e) && final(self)@ == old(self)@,
            },
            ledger_is_sound(final(self)@),
    {
        proof {
            use_type_invariant(&*self);
        }
        if !caller.same(&self.owner) {
            return Err(LoyaltyError::Unauthorized);
        }
        let current = self.get_customer_points(customer);
        if current < points_to_redeem {
            return Err(LoyaltyError::InvalidPoints);
        }
        let left: u32 = current - points_to_redeem;
        let mut customer_points: Table<u32> = Table::new();
        std::mem::swap(&mut customer_points, &mut self.customer_points);
        if left > 0 {
            customer_points.set(customer.key().clone(), left);
        } else {
            let _ = customer_points.remove(customer.key());
        }
        self.customer_points = customer_points;
        assert(self@.points =~= old(self)@.with_points(customer@, left as int).points);
        Ok(left)
    }
}

} // verus!
