//! The payment processor: fee-bearing direct payments and the fee ledger.

use vstd::prelude::*;
use crate::address::{orders, Address, Transfer, TransferView};
use crate::fees::{compute_fees, fee_quote, FeeError};

verus! {

/// Why the payment processor refused a call.
#[derive(Copy, Clone, Debug, PartialEq, Eq, PartialOrd, Ord, Hash, Structural)]
pub enum PaymentError {
    Unauthorized,
    InvalidAmount,
    TokenNotSupported,
    FeeExceedsPayment,
    InsufficientBalance,
    TransferFailed,
    InvalidFeePercentage,
}

impl PaymentError {
    /// The numeric code of this error.
    pub fn code(self) -> (code: u32)
        ensures
            code == match self {
                PaymentError::Unauthorized => 1u32,
                PaymentError::InvalidAmount => 2u32,
                PaymentError::TokenNotSupported => 3u32,
                PaymentError::FeeExceedsPayment => 4u32,
                PaymentError::InsufficientBalance => 5u32,
                PaymentError::TransferFailed => 6u32,
                PaymentError::InvalidFeePercentage => 7u32,
            },
    {
        match self {
            PaymentError::Unauthorized => 1,
            PaymentError::InvalidAmount => 2,
            PaymentError::TokenNotSupported => 3,
            PaymentError::FeeExceedsPayment => 4,
            PaymentError::InsufficientBalance => 5,
            PaymentError::TransferFailed => 6,
            PaymentError::InvalidFeePercentage => 7,
        }
    }
}

/// What a processed payment came to: both fees and the transfers now owed.
#[derive(Debug)]
pub struct PaymentProcessed {
    pub from: Address,
    pub to: Address,
    pub amount: i128,
    pub payment_id: String,
    pub platform_fee: i128,
    pub merchant_fee: i128,
    /// The transfers to carry out on the token ledger, in this order.
    pub transfers: Vec<Transfer>,
}

/// The payment processor's state.
#[derive(Debug)]
pub struct PaymentProcessorContract {
    owner: Address,
    payment_token: Address,
    platform_fee_bps: u32,
    collected_fees: i128,
}

/// The payment processor's state as plain values.
pub struct ProcessorView {
    pub owner: Seq<char>,
    pub payment_token: Seq<char>,
    pub platform_fee_bps: int,
    pub collected_fees: int,
}

impl View for PaymentProcessorContract {
    type V = ProcessorView;

    closed spec fn view(&self) -> ProcessorView {
        ProcessorView {
            owner: self.owner@,
            payment_token: self.payment_token@,
            platform_fee_bps: self.platform_fee_bps as int,
            collected_fees: self.collected_fees as int,
        }
    }
}

/// The transfers a payment orders: the principal to the payee, the platform
/// fee to the owner, and the merchant fee to the merchant where there is one.
pub open spec fn payment_orders(
    from: Seq<char>,
    to: Seq<char>,
    owner: Seq<char>,
    merchant: Seq<char>,
    amount: int,
    platform_fee: int,
    merchant_fee: int,
) -> Seq<TransferView> {
    let fixed = seq![
        TransferView { from, to, amount },
        TransferView { from, to: owner, amount: platform_fee },
    ];
    if merchant_fee > 0 {
        fixed.push(TransferView { from, to: merchant, amount: merchant_fee })
    } else {
        fixed
    }
}

/// How `process_payment` decides: the two fees, or the refusal.
pub open spec fn payment_decision(
    state: ProcessorView,
    caller: Seq<char>,
    from: Seq<char>,
    amount: int,
    merchant_fee_bps: int,
) -> Result<(int, int), PaymentError> {
    if amount <= 0 {
        Err(PaymentError::InvalidAmount)
    } else if caller != from {
        Err(PaymentError::Unauthorized)
    } else {
        match fee_quote(amount, state.platform_fee_bps, merchant_fee_bps) {
            Err(FeeError::InvalidAmount) => Err(PaymentError::InvalidAmount),
            Err(FeeError::FeeExceedsPrincipal) => Err(PaymentError::FeeExceedsPayment),
            Ok((platform_fee, merchant_fee)) => if state.collected_fees + platform_fee
                > i128::MAX {
                Err(PaymentError::InvalidAmount)
            } else {
                Ok((platform_fee, merchant_fee))
            },
        }
    }
}

/// How `withdraw_fees` decides.
pub open spec fn withdrawal_decision(state: ProcessorView, caller: Seq<char>, amount: int) -> Result<
    (),
    PaymentError,
> {
    if caller != state.owner {
        Err(PaymentError::Unauthorized)
    } else if amount <= 0 || amount > state.collected_fees {
        Err(PaymentError::InvalidAmount)
    } else {
        Ok(())
    }
}

impl PaymentProcessorContract {
    #[verifier::type_invariant]
    spec fn well_formed(self) -> bool {
        self.platform_fee_bps <= 10000 && self.collected_fees >= 0
    }

    /// A processor that pays platform fees to `owner`, with nothing collected yet.
    ///
    /// A platform rate above ten thousand basis points is refused with
    /// `InvalidFeePercentage`.
    pub fn new(owner: Address, payment_token: Address, platform_fee_bps: u32) -> (made: Result<
        PaymentProcessorContract,
        PaymentError,
    >)
        ensures
            match made {
                Ok(processor) => platform_fee_bps <= 10000 && processor@ == (ProcessorView {
                    owner: owner@,
                    payment_token: payment_token@,
                    platform_fee_bps: platform_fee_bps as int,
                    collected_fees: 0,
                }),
                Err(e) => platform_fee_bps > 10000 && e == PaymentError::InvalidFeePercentage,
            },
    {
        if platform_fee_bps > 10000 {
            return Err(PaymentError::InvalidFeePercentage);
        }
        Ok(PaymentProcessorContract { owner, payment_token, platform_fee_bps, collected_fees: 0 })
    }

    /// The processor in the given state.
    ///
    /// A platform rate above ten thousand basis points is refused with
    /// `InvalidFeePercentage`; failing that, a negative total of collected
    /// fees is refused with `InvalidAmount`.
    pub fn restore(
        owner: Address,
        payment_token: Address,
        platform_fee_bps: u32,
        collected_fees: i128,
    ) -> (made: Result<PaymentProcessorContract, PaymentError>)
        ensures
            made is Ok <==> platform_fee_bps <= 10000 && collected_fees >= 0,
            match made {
                Ok(processor) => processor@ == (ProcessorView {
                    owner: owner@,
                    payment_token: payment_token@,
                    platform_fee_bps: platform_fee_bps as int,
                    collected_fees: collected_fees as int,
                }),
                Err(e) => e == (if platform_fee_bps > 10000 {
                    PaymentError::InvalidFeePercentage
                } else {
                    PaymentError::InvalidAmount
                }),
            },
    {
        if platform_fee_bps > 10000 {
            return Err(PaymentError::InvalidFeePercentage);
        }
        if collected_fees < 0 {
            return Err(PaymentError::InvalidAmount);
        }
        Ok(PaymentProcessorContract { owner, payment_token, platform_fee_bps, collected_fees })
    }

    /// The platform fee rate in basis points.
    pub fn get_platform_fee(&self) -> (bps: u32)
        ensures
            bps == self@.platform_fee_bps,
            bps <= 10000,
    {
        proof {
            use_type_invariant(self);
        }
        self.platform_fee_bps
    }

    /// The token in which payments are made.
    pub fn get_payment_token(&self) -> (token: Address)
        ensures
            token@ == self@.payment_token,
    {
        self.payment_token.clone()
    }

    /// The party that receives the platform fees.
    pub fn get_owner(&self) -> (owner: Address)
        ensures
            owner@ == self@.owner,
    {
        self.owner.clone()
    }

    /// The platform fees collected so far.
    pub fn get_collected_fees(&self) -> (collected: i128)
        ensures
            collected == self@.collected_fees,
            collected >= 0,
    {
        proof {
            use_type_invariant(self);
        }
        self.collected_fees
    }

    /// Processes a payment of `amount` from `from` to `to`.
    ///
    /// The amount must be positive and `caller` must be the paying party; the
    /// fees together must stay below the amount. On success the platform fee is added
    /// to the collected fees and the transfers owed are returned in order. On
    /// any refusal nothing changes.
    pub fn process_payment(
        &mut self,
        caller: &Address,
        from: Address,
        to: Address,
        amount: i128,
        merchant: Address,
        merchant_fee_bps: u32,
        payment_id: String,
    ) -> (done: Result<PaymentProcessed, PaymentError>)
        ensures
            match payment_decision(
                old(self)@,
                caller@,
                from@,
                amount as int,
                merchant_fee_bps as int,
            ) {
                Ok((platform_fee, merchant_fee)) => {
                    &&& done is Ok
                    &&& done->Ok_0.from@ == from@
                    &&& done->Ok_0.to@ == to@
                    &&& done->Ok_0.amount == amount
                    &&& done->Ok_0.payment_id@ == payment_id@
                    &&& done->Ok_0.platform_fee == platform_fee
                    &&& done->Ok_0.merchant_fee == merchant_fee
                    &&& orders(done->Ok_0.transfers@) == payment_orders(
                        from@,
                        to@,
                        old(self)@.owner,
                        merchant@,
                        amount as int,
                        platform_fee,
                        merchant_fee,
                    )
                    &&& final(self)@ == (ProcessorView {
                        collected_fees: old(self)@.collected_fees + platform_fee,
                        ..old(self)@
                    })
                },
                Err(e) => done == Err::<PaymentProcessed, PaymentError>(e) && final(self)@ == old(
                    self,
                )@,
            },
    {
        proof {
            use_type_invariant(&*self);
        }
        if amount <= 0 {
            return Err(PaymentError::InvalidAmount);
        }
        if !caller.same(&from) {
            return Err(PaymentError::Unauthorized);
        }
        match compute_fees(amount, self.platform_fee_bps, merchant_fee_bps) {
            Err(FeeError::InvalidAmount) => Err(PaymentError::InvalidAmount),
            Err(FeeError::FeeExceedsPrincipal) => Err(PaymentError::FeeExceedsPayment),
            Ok((platform_fee, merchant_fee)) => {
                if platform_fee > i128::MAX - self.collected_fees {
                    return Err(PaymentError::InvalidAmount);
                }
                let mut transfers: Vec<Transfer> = Vec::new();
                transfers.push(Transfer { from: from.clone(), to: to.clone(), amount });
                transfers.push(
                    Transfer { from: from.clone(), to: self.owner.clone(), amount: platform_fee },
                );
                if merchant_fee > 0 {
                    transfers.push(
                        Transfer { from: from.clone(), to: merchant, amount: merchant_fee },
                    );
                }
                self.collected_fees = self.collected_fees + platform_fee;
                assert(orders(transfers@) =~= payment_orders(
                    from@,
                    to@,
                    old(self)@.owner,
                    merchant@,
                    amount as int,
                    platform_fee as int,
                    merchant_fee as int,
                ));
                Ok(
                    PaymentProcessed {
                        from,
                        to,
                        amount,
                        payment_id,
                        platform_fee,
                        merchant_fee,
                        transfers,
                    },
                )
            },
        }
    }

    /// Withdraws `amount` of the collected platform fees.
    ///
    /// Only the owner may withdraw, and only a positive amount within what was
    /// collected. On success the collected fees drop by `amount` and the
    /// transfer owed is returned. On any refusal nothing changes.
    pub fn withdraw_fees(&mut self, caller: &Address, amount: i128) -> (done: Result<
        Transfer,
        PaymentError,
    >)
        ensures
            match withdrawal_decision(old(self)@, caller@, amount as int) {
                Ok(()) => {
                    &&& done is Ok
                    &&& done->Ok_0@ == (TransferView {
                        from: old(self)@.owner,
                        to: old(self)@.owner,
                        amount: amount as int,
                    })
                    &&& final(self)@ == (ProcessorView {
                        collected_fees: old(self)@.collected_fees - amount,
                        ..old(self)@
                    })
                },
                Err(e) => done == Err::<Transfer, PaymentError>(e) && final(self)@ == old(self)@,
            },
    {
        proof {
            use_type_invariant(&*self);
        }
        if !caller.same(&self.owner) {
            return Err(PaymentError::Unauthorized);
        }
        if amount <= 0 || amount > self.collected_fees {
            return Err(PaymentError::InvalidAmount);
        }
        self.collected_fees = self.collected_fees - amount;
        Ok(Transfer { from: self.owner.clone(), to: self.owner.clone(), amount })
    }
}

} // verus!
