//! Amounts of the wallet shown in a second currency, at the rate that the
//! price oracle gave. Nothing here changes the wallet.

use vstd::prelude::*;
use crate::ledger::entry_with_id;
use crate::types::HealthAidWalletError;
use crate::wallet::HealthAidWallet;

verus! {

/// What the price oracle says of a pair of currencies: the price of one unit
/// of the first in units of the second, when it was taken, and how much the
/// oracle trusts it.
#[derive(Clone, Copy, Debug, PartialEq, Eq, Structural)]
pub struct PriceFeed {
    pub price: i128,
    pub timestamp: u64,
    pub confidence: i128,
}

/// An amount in the second currency: the amount times the price. Without a
/// feed there is none.
pub open spec fn converted(amount: int, feed: Option<PriceFeed>) -> Result<
    int,
    HealthAidWalletError,
> {
    match feed {
        Some(f) => Ok(amount * f.price),
        None => Err(HealthAidWalletError::OracleUnavailable),
    }
}

/// The amount in the second currency, where there is one, fits in an `i128`.
pub open spec fn convertible(amount: int, feed: Option<PriceFeed>) -> bool {
    match feed {
        Some(f) => i128::MIN <= amount * f.price <= i128::MAX,
        None => true,
    }
}

/// The quotient rounded toward zero, for a positive divisor.
pub open spec fn truncated_quotient(amount: int, divisor: int) -> int {
    if amount >= 0 {
        amount / divisor
    } else {
        -((-amount) / divisor)
    }
}

/// An amount divided by the price and rounded toward zero. Without a feed,
/// or at a price that is not positive, there is none.
pub open spec fn divided(amount: int, feed: Option<PriceFeed>) -> Result<
    int,
    HealthAidWalletError,
> {
    match feed {
        Some(f) => if f.price > 0 {
            Ok(truncated_quotient(amount, f.price as int))
        } else {
            Err(HealthAidWalletError::OracleUnavailable)
        },
        None => Err(HealthAidWalletError::OracleUnavailable),
    }
}

/// A view gave the amount that was expected, or failed for the expected
/// reason.
pub open spec fn shows(
    expected: Result<int, HealthAidWalletError>,
    r: Result<i128, HealthAidWalletError>,
) -> bool {
    match expected {
        Ok(v) => r.is_ok() && r.unwrap() == v,
        Err(e) => r == Err::<i128, HealthAidWalletError>(e),
    }
}

/// Whether an amount in the second currency, where there is one, fits in an
/// `i128`.
pub fn is_convertible(amount: i128, feed: Option<PriceFeed>) -> (r: bool)
    ensures
        r == convertible(amount as int, feed),
{
    match feed {
        Some(f) => amount.checked_mul(f.price).is_some(),
        None => true,
    }
}

impl HealthAidWallet {
    /// `usdc_amount` in the second currency at the oracle's price;
    /// `OracleUnavailable` where the oracle gave no feed.
    pub fn get_usdc_to_brl_rate(usdc_amount: i128, feed: Option<PriceFeed>) -> (r: Result<
        i128,
        HealthAidWalletError,
    >)
        requires
            convertible(usdc_amount as int, feed),
        ensures
            shows(converted(usdc_amount as int, feed), r),
    {
        match feed {
            Some(f) => Ok(usdc_amount * f.price),
            None => Err(HealthAidWalletError::OracleUnavailable),
        }
    }

    /// `brl_amount` divided by the oracle's price and rounded toward zero;
    /// `OracleUnavailable` where the oracle gave no feed or a price that is
    /// not positive.
    pub fn get_brl_to_usdc_rate(brl_amount: i128, feed: Option<PriceFeed>) -> (r: Result<
        i128,
        HealthAidWalletError,
    >)
        ensures
            shows(divided(brl_amount as int, feed), r),
    {
        match feed {
            Some(f) => {
                if f.price > 0 {
                    proof {
                        let a = brl_amount as int;
                        let d = f.price as int;
                        if a >= 0 {
                            assert(0 <= a / d <= a) by (nonlinear_arith)
                                requires
                                    0 <= a,
                                    0 < d,
                            ;
                        } else {
                            assert(0 <= (-a) / d <= -a) by (nonlinear_arith)
                                requires
                                    0 <= -a,
                                    0 < d,
                            ;
                        }
                    }
                    Ok(brl_amount / f.price)
                } else {
                    Err(HealthAidWalletError::OracleUnavailable)
                }
            },
            None => Err(HealthAidWalletError::OracleUnavailable),
        }
    }

    /// The oracle's price of one unit.
    pub fn get_exchange_rate(feed: Option<PriceFeed>) -> (r: Result<i128, HealthAidWalletError>)
        ensures
            shows(converted(1, feed), r),
            feed.is_some() ==> r == Ok::<i128, HealthAidWalletError>(feed.unwrap().price),
    {
        match feed {
            Some(f) => Ok(f.price),
            None => Err(HealthAidWalletError::OracleUnavailable),
        }
    }

    /// The oracle's feed as price, time and confidence; `OracleUnavailable`
    /// where it gave none.
    pub fn get_price_feed(feed: Option<PriceFeed>) -> (r: Result<
        (i128, u64, i128),
        HealthAidWalletError,
    >)
        ensures
            match feed {
                Some(f) => r == Ok::<(i128, u64, i128), HealthAidWalletError>(
                    (f.price, f.timestamp, f.confidence),
                ),
                None => r == Err::<(i128, u64, i128), HealthAidWalletError>(
                    HealthAidWalletError::OracleUnavailable,
                ),
            },
    {
        match feed {
            Some(f) => Ok((f.price, f.timestamp, f.confidence)),
            None => Err(HealthAidWalletError::OracleUnavailable),
        }
    }

    /// The available balance in the second currency.
    pub fn get_balance_brl(&self, feed: Option<PriceFeed>) -> (r: Result<
        i128,
        HealthAidWalletError,
    >)
        requires
            convertible(self@.balance, feed),
        ensures
            shows(converted(self@.balance, feed), r),
    {
        Self::get_usdc_to_brl_rate(self.balance, feed)
    }

    /// The amount invested in the second currency.
    pub fn get_invested_amount_brl(&self, feed: Option<PriceFeed>) -> (r: Result<
        i128,
        HealthAidWalletError,
    >)
        requires
            convertible(self@.invested_amount, feed),
        ensures
            shows(converted(self@.invested_amount, feed), r),
    {
        Self::get_usdc_to_brl_rate(self.invested_amount, feed)
    }

    /// The available balance and the amount invested together, in the second
    /// currency.
    pub fn get_total_balance_brl(&self, feed: Option<PriceFeed>) -> (r: Result<
        i128,
        HealthAidWalletError,
    >)
        requires
            self.wf(),
            convertible(self@.balance + self@.invested_amount, feed),
        ensures
            shows(converted(self@.balance + self@.invested_amount, feed), r),
    {
        Self::get_usdc_to_brl_rate(self.get_total_balance(), feed)
    }

    /// What a fund holds, in the second currency; `FundNotFound` where no
    /// fund has the id, whatever the oracle gave.
    pub fn get_fund_amount_brl(&self, fund_id: &String, feed: Option<PriceFeed>) -> (r: Result<
        i128,
        HealthAidWalletError,
    >)
        requires
            self.wf(),
            self@.funds.dom().contains(fund_id@) ==> convertible(
                self@.funds[fund_id@].current_amount,
                feed,
            ),
        ensures
            shows(
                if self@.funds.dom().contains(fund_id@) {
                    converted(self@.funds[fund_id@].current_amount, feed)
                } else {
                    Err(HealthAidWalletError::FundNotFound)
                },
                r,
            ),
    {
        match self.get_fund(fund_id) {
            Ok(fund) => Self::get_usdc_to_brl_rate(fund.current_amount, feed),
            Err(e) => Err(e),
        }
    }

    /// The target of a fund, in the second currency; `FundNotFound` where no
    /// fund has the id, whatever the oracle gave.
    pub fn get_fund_target_brl(&self, fund_id: &String, feed: Option<PriceFeed>) -> (r: Result<
        i128,
        HealthAidWalletError,
    >)
        requires
            self.wf(),
            self@.funds.dom().contains(fund_id@) ==> convertible(
                self@.funds[fund_id@].target_amount,
                feed,
            ),
        ensures
            shows(
                if self@.funds.dom().contains(fund_id@) {
                    converted(self@.funds[fund_id@].target_amount, feed)
                } else {
                    Err(HealthAidWalletError::FundNotFound)
                },
                r,
            ),
    {
        match self.get_fund(fund_id) {
            Ok(fund) => Self::get_usdc_to_brl_rate(fund.target_amount, feed),
            Err(e) => Err(e),
        }
    }

    /// The amount of a ledger entry in the second currency; `Ok(None)` where
    /// the ledger has no entry with the id, whatever the oracle gave.
    pub fn get_transaction_amount_brl(&self, transaction_id: u64, feed: Option<PriceFeed>) -> (r:
        Result<Option<i128>, HealthAidWalletError>)
        requires
            self.wf(),
            entry_with_id(self@.history, transaction_id as nat).is_some() ==> convertible(
                entry_with_id(self@.history, transaction_id as nat).unwrap().amount,
                feed,
            ),
        ensures
            match entry_with_id(self@.history, transaction_id as nat) {
                None => r == Ok::<Option<i128>, HealthAidWalletError>(None),
                Some(entry) => match converted(entry.amount, feed) {
                    Ok(v) => r.is_ok() && r.unwrap().is_some() && r.unwrap().unwrap() == v,
                    Err(e) => r == Err::<Option<i128>, HealthAidWalletError>(e),
                },
            },
    {
        match self.get_transaction(transaction_id) {
            Some(entry) => match Self::get_usdc_to_brl_rate(entry.amount, feed) {
                Ok(v) => Ok(Some(v)),
                Err(e) => Err(e),
            },
            None => Ok(None),
        }
    }
}

} // verus!
