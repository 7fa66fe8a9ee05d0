//! The wallet's dealings with the yield vault. The vault is asked by the
//! caller of this crate: each dealing is planned here from the state and
//! from what the vault reported, and settled here when the vault has replied.

use vstd::prelude::*;
use crate::model::QuoteModel;
use crate::model::VaultPaymentModel;
use crate::model::WithdrawalModel;
use crate::model::shares_needed;
use crate::types::HealthAidWalletError;
use crate::types::TransactionType;
use crate::wallet::AssetTransfer;
use crate::wallet::HealthAidWallet;
use crate::wallet::VaultDeposit;
use crate::wallet::VaultQuote;
use crate::wallet::VaultWithdrawal;
use crate::wallet::amount_view;
use crate::wallet::quote_view;
use crate::wallet::settles;

verus! {

impl View for VaultWithdrawal {
    type V = WithdrawalModel;

    open spec fn view(&self) -> WithdrawalModel {
        WithdrawalModel { shares: self.shares as int, min_amount: self.min_amount as int }
    }
}

/// A payment out of the vault: the withdrawal to ask of the vault, and the
/// transfer to make once the vault has paid out.
#[derive(Clone, Debug, PartialEq, Eq)]
pub struct VaultPayment {
    pub withdrawal: VaultWithdrawal,
    pub transfer: AssetTransfer,
}

impl View for VaultPayment {
    type V = VaultPaymentModel;

    open spec fn view(&self) -> VaultPaymentModel {
        VaultPaymentModel { withdrawal: self.withdrawal@, transfer: self.transfer@ }
    }
}

impl VaultPayment {
    /// The transfer to make after the vault has replied to the withdrawal:
    /// the one planned, where the vault paid out; `FailedToWithdraw` where
    /// the withdrawal failed.
    pub fn transfer_after(&self, vault_reply: Option<i128>) -> (r: Result<
        AssetTransfer,
        HealthAidWalletError,
    >)
        ensures
            match vault_reply {
                Some(_) => r.is_ok() && r.unwrap() == self.transfer,
                None => r.is_err() && r.unwrap_err() == HealthAidWalletError::FailedToWithdraw,
            },
    {
        match vault_reply {
            Some(_) => Ok(
                AssetTransfer {
                    destination: self.transfer.destination.clone(),
                    amount: self.transfer.amount,
                },
            ),
            None => Err(HealthAidWalletError::FailedToWithdraw),
        }
    }
}

/// A planned withdrawal is the one that the model yields, or fails for the
/// same reason.
pub open spec fn plans(
    expected: Result<WithdrawalModel, HealthAidWalletError>,
    r: Result<VaultWithdrawal, HealthAidWalletError>,
) -> bool {
    match expected {
        Ok(w) => r.is_ok() && r.unwrap()@ == w,
        Err(e) => r == Err::<VaultWithdrawal, HealthAidWalletError>(e),
    }
}

/// Shares computed for an amount lose less than one share to rounding, and
/// they are never negative.
pub proof fn lemma_shares_rounding(amount: int, quote: QuoteModel)
    requires
        shares_needed(amount, Some(quote)).is_ok(),
    ensures
        ({
            let shares = shares_needed(amount, Some(quote)).unwrap();
            &&& 0 <= shares
            &&& shares * quote.total_managed_value <= amount * quote.total_supply
            &&& amount * quote.total_supply < (shares + 1) * quote.total_managed_value
        }),
{
    let p = amount * quote.total_supply;
    let d = quote.total_managed_value;
    assert(0 <= p) by (nonlinear_arith)
        requires
            0 <= amount,
            0 <= quote.total_supply,
            p == amount * quote.total_supply,
    ;
    assert(0 <= p / d && (p / d) * d <= p && p < (p / d + 1) * d) by (nonlinear_arith)
        requires
            0 <= p,
            0 < d,
    ;
}

/// The shares to hand in for `amount` of the asset, by the vault's figures.
pub fn compute_shares_needed(amount: i128, quote: Option<VaultQuote>) -> (r: Result<
    i128,
    HealthAidWalletError,
>)
    ensures
        match shares_needed(amount as int, quote_view(quote)) {
            Ok(s) => r == Ok::<i128, HealthAidWalletError>(s as i128) && s <= i128::MAX,
            Err(e) => r == Err::<i128, HealthAidWalletError>(e),
        },
{
    if amount < 0 {
        return Err(HealthAidWalletError::InvalidAmount);
    }
    let q = match quote {
        Some(q) => q,
        None => {
            return Err(HealthAidWalletError::FailedToWithdraw);
        },
    };
    if q.total_managed_value <= 0 || q.total_supply < 0 {
        return Err(HealthAidWalletError::FailedToWithdraw);
    }
    match amount.checked_mul(q.total_supply) {
        None => {
            proof {
                assert(0 <= amount * q.total_supply) by (nonlinear_arith)
                    requires
                        0 <= amount,
                        0 <= q.total_supply,
                ;
            }
            Err(HealthAidWalletError::FailedToWithdraw)
        },
        Some(product) => {
            proof {
                lemma_shares_rounding(amount as int, q@);
                let d = q.total_managed_value as int;
                let p = product as int;
                assert(p / d <= p) by (nonlinear_arith)
                    requires
                        0 <= p,
                        0 < d,
                ;
            }
            Ok(product / q.total_managed_value)
        },
    }
}

/// What one strategy of the vault holds of an asset.
#[derive(Clone, Debug, PartialEq, Eq)]
pub struct StrategyAllocation {
    pub strategy_address: String,
    pub amount: i128,
    pub paused: bool,
}

/// What the vault manages of one asset, idle and invested.
#[derive(Clone, Debug, PartialEq, Eq)]
pub struct CurrentAssetInvestmentAllocation {
    pub asset: String,
    pub total_amount: i128,
    pub idle_amount: i128,
    pub invested_amount: i128,
    pub strategy_allocations: Vec<StrategyAllocation>,
}

/// The shares outstanding, from the vault's reply to the question; a reply
/// that did not come is `FailedToWithdraw`.
pub fn get_total_supply(reply: Option<i128>) -> (r: Result<i128, HealthAidWalletError>)
    ensures
        match reply {
            Some(supply) => r == Ok::<i128, HealthAidWalletError>(supply),
            None => r == Err::<i128, HealthAidWalletError>(HealthAidWalletError::FailedToWithdraw),
        },
{
    match reply {
        Some(supply) => Ok(supply),
        None => Err(HealthAidWalletError::FailedToWithdraw),
    }
}

/// The value under management, from the vault's reply to the question: the
/// total of the first asset that the vault lists. A reply that did not come,
/// or that lists no asset, is `FailedToWithdraw`.
pub fn fetch_total_managed_funds(reply: &Option<Vec<CurrentAssetInvestmentAllocation>>) -> (r:
    Result<i128, HealthAidWalletError>)
    ensures
        match *reply {
            Some(assets) => if assets@.len() > 0 {
                r == Ok::<i128, HealthAidWalletError>(assets@[0].total_amount)
            } else {
                r == Err::<i128, HealthAidWalletError>(HealthAidWalletError::FailedToWithdraw)
            },
            None => r == Err::<i128, HealthAidWalletError>(HealthAidWalletError::FailedToWithdraw),
        },
{
    match reply {
        Some(assets) => {
            if assets.len() > 0 {
                Ok(assets[0].total_amount)
            } else {
                Err(HealthAidWalletError::FailedToWithdraw)
            }
        },
        None => Err(HealthAidWalletError::FailedToWithdraw),
    }
}

impl VaultQuote {
    /// The vault's figures from its two replies; `None` unless both give
    /// one.
    pub fn from_replies(
        total_supply: Option<i128>,
        managed_funds: &Option<Vec<CurrentAssetInvestmentAllocation>>,
    ) -> (r: Option<VaultQuote>)
        ensures
            match (total_supply, *managed_funds) {
                (Some(supply), Some(assets)) => if assets@.len() > 0 {
                    r == Some(
                        VaultQuote {
                            total_supply: supply,
                            total_managed_value: assets@[0].total_amount,
                        },
                    )
                } else {
                    r.is_none()
                },
                _ => r.is_none(),
            },
    {
        match (get_total_supply(total_supply), fetch_total_managed_funds(managed_funds)) {
            (Ok(supply), Ok(value)) => Some(
                VaultQuote { total_supply: supply, total_managed_value: value },
            ),
            _ => None,
        }
    }
}

impl HealthAidWallet {
    /// The amount that a request by `caller` to move `amount` out of a
    /// balance of `available` moves: all of it where `amount` is 0.
    fn amount_to_move(&self, caller: &String, amount: i128, available: i128) -> (r: Result<
        i128,
        HealthAidWalletError,
    >)
        ensures
            match self@.amount_to_move(caller@, amount as int, available as int) {
                Ok(a) => r == Ok::<i128, HealthAidWalletError>(a as i128) && a == a as i128,
                Err(e) => r == Err::<i128, HealthAidWalletError>(e),
            },
    {
        if !(*caller == self.user) {
            return Err(HealthAidWalletError::Unauthorized);
        }
        if amount == 0 {
            if available == 0 {
                return Err(HealthAidWalletError::InvalidAmount);
            }
            return Ok(available);
        }
        if amount < 0 {
            return Err(HealthAidWalletError::InvalidAmount);
        }
        if amount > available {
            return Err(HealthAidWalletError::InsufficientBalance);
        }
        Ok(amount)
    }

    /// The deposit to ask of the vault for an investment of `amount`, 0 for
    /// all of the available balance. Refused with `Unauthorized`, with
    /// `InvalidAmount` where the amount is negative or nothing is there to
    /// invest, and with `InsufficientBalance` where the amount exceeds the
    /// available balance.
    pub fn plan_invest(&self, caller: &String, amount: i128) -> (r: Result<
        VaultDeposit,
        HealthAidWalletError,
    >)
        ensures
            match self@.invest_amount(caller@, amount as int) {
                Ok(a) => r == Ok::<VaultDeposit, HealthAidWalletError>(
                    VaultDeposit { amount: a as i128, min_shares: 0, all_or_nothing: true },
                ) && a == a as i128,
                Err(e) => r == Err::<VaultDeposit, HealthAidWalletError>(e),
            },
    {
        match self.amount_to_move(caller, amount, self.balance) {
            Ok(placed) => Ok(VaultDeposit { amount: placed, min_shares: 0, all_or_nothing: true }),
            Err(e) => Err(e),
        }
    }

    /// Settles an investment of `amount`, 0 for all of the available
    /// balance, with the vault's reply to the deposit planned by
    /// `plan_invest`: the shares it issued, or `None` where the deposit
    /// failed. A request that `plan_invest` refuses is refused here for the
    /// same reason, whatever the reply. A failed deposit is
    /// `FailedToDeposit`. Otherwise the amount moves from the available
    /// balance to the amount invested, and the investment is recorded.
    pub fn invest(
        &mut self,
        caller: &String,
        amount: i128,
        vault_reply: Option<i128>,
        timestamp: u64,
    ) -> (r: Result<(), HealthAidWalletError>)
        requires
            old(self).wf(),
        ensures
            settles(
                old(self)@.invest(caller@, amount as int, amount_view(vault_reply), timestamp as nat),
                r,
                *old(self),
                *final(self),
            ),
            r.is_ok() ==> final(self).total_value() == old(self).total_value(),
    {
        let placed = match self.amount_to_move(caller, amount, self.balance) {
            Ok(a) => a,
            Err(e) => {
                return Err(e);
            },
        };
        if vault_reply.is_none() {
            return Err(HealthAidWalletError::FailedToDeposit);
        }
        proof {
            self.lemma_wf_valid();
        }
        self.balance = self.balance - placed;
        self.invested_amount = self.invested_amount + placed;
        self.ledger.add_transaction(
            TransactionType::Invest,
            placed,
            None,
            None,
            timestamp,
            "Investment in DeFindex/Blend".to_owned(),
        );
        Ok(())
    }

    /// The withdrawal to ask of the vault for a redemption of `amount`, 0
    /// for all that is invested, where the vault reported the figures
    /// `quote`, or none. Refused with `Unauthorized`, `InvalidAmount` or
    /// `InsufficientBalance` as an investment is, against the amount
    /// invested, and with `FailedToWithdraw` where no shares can be computed
    /// from the figures.
    pub fn plan_redeem(&self, caller: &String, amount: i128, quote: Option<VaultQuote>) -> (r:
        Result<VaultWithdrawal, HealthAidWalletError>)
        ensures
            plans(self@.redeem_withdrawal(caller@, amount as int, quote_view(quote)), r),
    {
        let taken = match self.amount_to_move(caller, amount, self.invested_amount) {
            Ok(a) => a,
            Err(e) => {
                return Err(e);
            },
        };
        match compute_shares_needed(taken, quote) {
            Ok(shares) => Ok(VaultWithdrawal { shares, min_amount: taken }),
            Err(e) => Err(e),
        }
    }

    /// Settles a redemption of `amount`, 0 for all that is invested, with
    /// the figures `quote` and the vault's reply to the withdrawal planned
    /// by `plan_redeem`: the amount it paid out, or `None` where the
    /// withdrawal failed. A request that `plan_redeem` refuses is refused
    /// here for the same reason, whatever the reply. A failed withdrawal is
    /// `FailedToWithdraw`. Otherwise the amount moves from the amount
    /// invested to the available balance, and the redemption is recorded.
    pub fn redeem(
        &mut self,
        caller: &String,
        amount: i128,
        quote: Option<VaultQuote>,
        vault_reply: Option<i128>,
        timestamp: u64,
    ) -> (r: Result<(), HealthAidWalletError>)
        requires
            old(self).wf(),
        ensures
            settles(
                old(self)@.redeem(
                    caller@,
                    amount as int,
                    quote_view(quote),
                    amount_view(vault_reply),
                    timestamp as nat,
                ),
                r,
                *old(self),
                *final(self),
            ),
            r.is_ok() ==> final(self).total_value() == old(self).total_value(),
    {
        let plan = match self.plan_redeem(caller, amount, quote) {
            Ok(w) => w,
            Err(e) => {
                return Err(e);
            },
        };
        if vault_reply.is_none() {
            return Err(HealthAidWalletError::FailedToWithdraw);
        }
        let taken: i128 = plan.min_amount;
        proof {
            self.lemma_wf_valid();
        }
        self.invested_amount = self.invested_amount - taken;
        self.balance = self.balance + taken;
        self.ledger.add_transaction(
            TransactionType::Redeem,
            taken,
            None,
            None,
            timestamp,
            "Redemption from DeFindex/Blend".to_owned(),
        );
        Ok(())
    }

    /// What to do for a payment of `amount` to `destination` out of the
    /// vault: the withdrawal to ask of the vault, and the transfer to make
    /// once the vault has paid out. The allow-list said `is_provider` of the
    /// destination, the vault holds `vault_balance` of the asset for the
    /// wallet, or did not say, and reported the figures `quote`, or none.
    /// Refused, in this order, with `Unauthorized`, with `InvalidAmount`
    /// where the amount is not positive, with `DestinationNotAllowed`, with
    /// `FailedToGetBalance` where the vault did not say what it holds, with
    /// `InsufficientBalance` where it holds less than the amount, and with
    /// `FailedToWithdraw` where no shares can be computed from the figures.
    pub fn plan_pay_from_vault(
        &self,
        caller: &String,
        destination: &String,
        amount: i128,
        is_provider: bool,
        vault_balance: Option<i128>,
        quote: Option<VaultQuote>,
    ) -> (r: Result<VaultPayment, HealthAidWalletError>)
        ensures
            match self@.vault_payment(
                caller@,
                destination@,
                amount as int,
                is_provider,
                amount_view(vault_balance),
                quote_view(quote),
            ) {
                Ok(payment) => r.is_ok() && r.unwrap()@ == payment,
                Err(e) => r.is_err() && r.unwrap_err() == e,
            },
    {
        if !(*caller == self.user) {
            return Err(HealthAidWalletError::Unauthorized);
        }
        if amount <= 0 {
            return Err(HealthAidWalletError::InvalidAmount);
        }
        if !is_provider {
            return Err(HealthAidWalletError::DestinationNotAllowed);
        }
        let held = match vault_balance {
            Some(b) => b,
            None => {
                return Err(HealthAidWalletError::FailedToGetBalance);
            },
        };
        if held < amount {
            return Err(HealthAidWalletError::InsufficientBalance);
        }
        match compute_shares_needed(amount, quote) {
            Ok(shares) => Ok(
                VaultPayment {
                    withdrawal: VaultWithdrawal { shares, min_amount: amount },
                    transfer: AssetTransfer { destination: destination.clone(), amount },
                },
            ),
            Err(e) => Err(e),
        }
    }

    /// Settles a payment of `amount` to `destination` out of the vault with
    /// the vault's reply to the withdrawal planned by `plan_pay_from_vault`:
    /// the amount it paid out, or `None` where the withdrawal failed. A
    /// request that `plan_pay_from_vault` refuses is refused here for the
    /// same reason, whatever the reply. A failed withdrawal is
    /// `FailedToWithdraw`. Otherwise the payment is recorded; the balances
    /// that the wallet tracks stay as they are.
    pub fn pay_from_vault(
        &mut self,
        caller: &String,
        destination: &String,
        amount: i128,
        is_provider: bool,
        vault_balance: Option<i128>,
        quote: Option<VaultQuote>,
        vault_reply: Option<i128>,
        timestamp: u64,
    ) -> (r: Result<(), HealthAidWalletError>)
        requires
            old(self).wf(),
        ensures
            settles(
                old(self)@.pay_from_vault(
                    caller@,
                    destination@,
                    amount as int,
                    is_provider,
                    amount_view(vault_balance),
                    quote_view(quote),
                    amount_view(vault_reply),
                    timestamp as nat,
                ),
                r,
                *old(self),
                *final(self),
            ),
            r.is_ok() ==> final(self).total_value() == old(self).total_value(),
    {
        let payment = match self.plan_pay_from_vault(
            caller,
            destination,
            amount,
            is_provider,
            vault_balance,
            quote,
        ) {
            Ok(p) => p,
            Err(e) => {
                return Err(e);
            },
        };
        if vault_reply.is_none() {
            return Err(HealthAidWalletError::FailedToWithdraw);
        }
        self.ledger.add_transaction(
            TransactionType::Payment,
            amount,
            Some(payment.transfer.destination),
            None,
            timestamp,
            "Payment to healthcare provider".to_owned(),
        );
        Ok(())
    }
}

} // verus!
