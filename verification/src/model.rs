//! The wallet as a mathematical state machine. Amounts are unbounded
//! integers here; each operation either yields the next state or names the
//! reason for which it is refused, in which case the state stays as it is.

use vstd::prelude::*;
use crate::ledger::numbered;
use crate::types::FundModel;
use crate::types::HealthAidWalletError;
use crate::types::TransactionModel;
use crate::types::TransactionType;

verus! {

/// What the vault reports of itself at the time of a withdrawal.
pub struct QuoteModel {
    pub total_supply: int,
    pub total_managed_value: int,
}

/// The largest product of an amount and a share supply that a withdrawal is
/// computed from.
pub open spec fn product_limit() -> int {
    i128::MAX as int
}

/// The shares to hand in for `amount` of the asset: the amount times the
/// shares outstanding, divided by the value under management and rounded
/// down. A negative amount is `InvalidAmount`. Otherwise no shares can be
/// computed, which is `FailedToWithdraw`, where the vault gave no figures,
/// reports no value under management or a negative supply, or where the
/// product is beyond `product_limit`.
pub open spec fn shares_needed(amount: int, quote: Option<QuoteModel>) -> Result<
    int,
    HealthAidWalletError,
> {
    if amount < 0 {
        Err(HealthAidWalletError::InvalidAmount)
    } else {
        match quote {
            None => Err(HealthAidWalletError::FailedToWithdraw),
            Some(q) => if q.total_managed_value <= 0 || q.total_supply < 0 || amount
                * q.total_supply > product_limit() {
                Err(HealthAidWalletError::FailedToWithdraw)
            } else {
                Ok(amount * q.total_supply / q.total_managed_value)
            },
        }
    }
}

/// A withdrawal as the vault is asked for it: the shares to hand in, and the
/// least amount to accept for them.
pub struct WithdrawalModel {
    pub shares: int,
    pub min_amount: int,
}

/// A transfer of the stable asset out of the wallet, as the asset is asked
/// for it.
pub struct TransferModel {
    pub destination: Seq<char>,
    pub amount: int,
}

/// A payment out of the vault: the withdrawal to ask of the vault, and the
/// transfer to make once the vault has paid out.
pub struct VaultPaymentModel {
    pub withdrawal: WithdrawalModel,
    pub transfer: TransferModel,
}

/// A swap as the swap collaborator is asked for it: `amount_in` of
/// `token_in`, pulled from `owner`, for no less than `min_amount_out` of
/// `token_out`.
pub struct SwapModel {
    pub owner: Seq<char>,
    pub token_in: Seq<char>,
    pub token_out: Seq<char>,
    pub amount_in: int,
    pub min_amount_out: int,
}

/// What is saved on a request to save `amount` into a fund: the amount, but
/// no more than what the fund still lacks.
pub open spec fn saved_amount(fund: FundModel, amount: int) -> int {
    if amount <= fund.target_amount - fund.current_amount {
        amount
    } else {
        fund.target_amount - fund.current_amount
    }
}

/// The state of one wallet.
pub struct WalletModel {
    pub user: Seq<char>,
    pub registry_address: Seq<char>,
    pub usdc_token: Seq<char>,
    pub soroswap_contract: Seq<char>,
    pub defindex_contract: Seq<char>,
    pub reflector_contract: Seq<char>,
    pub balance: int,
    pub invested_amount: int,
    pub funds: Map<Seq<char>, FundModel>,
    pub history: Seq<TransactionModel>,
}

impl WalletModel {
    /// Neither balance is negative, each fund stands under its own id, has a
    /// positive target and holds between nothing and its target, and the
    /// ledger is numbered 1, 2, 3, ….
    pub open spec fn valid(self) -> bool {
        &&& 0 <= self.balance
        &&& 0 <= self.invested_amount
        &&& forall|id: Seq<char>| #[trigger]
            self.funds.dom().contains(id) ==> self.funds[id].valid() && self.funds[id].id == id
        &&& numbered(self.history)
    }

    /// The state with one more ledger entry, under the next id.
    pub open spec fn record(
        self,
        transaction_type: TransactionType,
        amount: int,
        destination: Option<Seq<char>>,
        fund_id: Option<Seq<char>>,
        timestamp: nat,
        description: Seq<char>,
    ) -> WalletModel {
        WalletModel {
            history: self.history.push(
                TransactionModel {
                    id: self.history.len() + 1,
                    transaction_type,
                    amount,
                    destination,
                    fund_id,
                    timestamp,
                    description,
                },
            ),
            ..self
        }
    }

    /// A deposit of `amount` by `caller`.
    pub open spec fn deposit(self, caller: Seq<char>, amount: int, timestamp: nat) -> Result<
        WalletModel,
        HealthAidWalletError,
    > {
        if caller != self.user {
            Err(HealthAidWalletError::Unauthorized)
        } else if amount <= 0 {
            Err(HealthAidWalletError::InvalidAmount)
        } else {
            Ok(
                WalletModel { balance: self.balance + amount, ..self }.record(
                    TransactionType::Deposit,
                    amount,
                    None,
                    None,
                    timestamp,
                    "USDC deposit"@,
                ),
            )
        }
    }

    /// The swap to ask for on a deposit of `amount` of `token`: none for the
    /// stable asset, which is deposited as it is.
    pub open spec fn swap_request(
        self,
        caller: Seq<char>,
        token: Seq<char>,
        amount: int,
        min_usdc_out: int,
    ) -> Result<Option<SwapModel>, HealthAidWalletError> {
        if caller != self.user {
            Err(HealthAidWalletError::Unauthorized)
        } else if amount <= 0 {
            Err(HealthAidWalletError::InvalidAmount)
        } else if token == self.usdc_token {
            Ok(None)
        } else {
            Ok(
                Some(
                    SwapModel {
                        owner: self.user,
                        token_in: token,
                        token_out: self.usdc_token,
                        amount_in: amount,
                        min_amount_out: min_usdc_out,
                    },
                ),
            )
        }
    }

    /// A deposit of `amount` of `token`. For a token other than the stable
    /// asset, `swap_reply` is what the swap into the stable asset yielded,
    /// or nothing where the swap failed; a swap that yielded less than
    /// `min_usdc_out` has failed too. A yield that meets the minimum is
    /// credited, a yield of 0 included; a negative one is no amount that can
    /// be credited, and is refused as `InvalidAmount`.
    pub open spec fn deposit_with_swap(
        self,
        caller: Seq<char>,
        token: Seq<char>,
        amount: int,
        min_usdc_out: int,
        swap_reply: Option<int>,
        timestamp: nat,
    ) -> Result<WalletModel, HealthAidWalletError> {
        match self.swap_request(caller, token, amount, min_usdc_out) {
            Err(e) => Err(e),
            Ok(None) => self.deposit(caller, amount, timestamp),
            Ok(Some(_)) => if swap_reply.is_none() || swap_reply.unwrap() < min_usdc_out {
                Err(HealthAidWalletError::SwapFailed)
            } else if swap_reply.unwrap() < 0 {
                Err(HealthAidWalletError::InvalidAmount)
            } else {
                Ok(
                    WalletModel { balance: self.balance + swap_reply.unwrap(), ..self }.record(
                        TransactionType::TokenSwap,
                        swap_reply.unwrap(),
                        None,
                        None,
                        timestamp,
                        "Token swap deposit"@,
                    ),
                )
            },
        }
    }

    /// The transfer to make for a payment of `amount` from the available
    /// balance to `destination`, of which the allow-list said `is_provider`.
    /// The caller is checked first, then the amount, the allow-list, and
    /// last the balance.
    pub open spec fn payment_transfer(
        self,
        caller: Seq<char>,
        destination: Seq<char>,
        amount: int,
        is_provider: bool,
    ) -> Result<TransferModel, HealthAidWalletError> {
        if caller != self.user {
            Err(HealthAidWalletError::Unauthorized)
        } else if amount <= 0 {
            Err(HealthAidWalletError::InvalidAmount)
        } else if !is_provider {
            Err(HealthAidWalletError::DestinationNotAllowed)
        } else if self.balance < amount {
            Err(HealthAidWalletError::InsufficientBalance)
        } else {
            Ok(TransferModel { destination, amount })
        }
    }

    /// A payment of `amount` from the available balance to `destination`, of
    /// which the allow-list said `is_provider`.
    pub open spec fn pay(
        self,
        caller: Seq<char>,
        destination: Seq<char>,
        amount: int,
        is_provider: bool,
        timestamp: nat,
    ) -> Result<WalletModel, HealthAidWalletError> {
        match self.payment_transfer(caller, destination, amount, is_provider) {
            Err(e) => Err(e),
            Ok(transfer) => Ok(
                WalletModel { balance: self.balance - transfer.amount, ..self }.record(
                    TransactionType::Payment,
                    transfer.amount,
                    Some(transfer.destination),
                    None,
                    timestamp,
                    "Payment to healthcare provider"@,
                ),
            ),
        }
    }

    /// The amount that a request to move `amount` out of a balance of
    /// `available` moves: all of it where `amount` is 0.
    pub open spec fn amount_to_move(self, caller: Seq<char>, amount: int, available: int) -> Result<
        int,
        HealthAidWalletError,
    > {
        if caller != self.user {
            Err(HealthAidWalletError::Unauthorized)
        } else if amount == 0 {
            if available == 0 {
                Err(HealthAidWalletError::InvalidAmount)
            } else {
                Ok(available)
            }
        } else if amount < 0 {
            Err(HealthAidWalletError::InvalidAmount)
        } else if amount > available {
            Err(HealthAidWalletError::InsufficientBalance)
        } else {
            Ok(amount)
        }
    }

    /// The amount that a request to invest `amount` places in the vault.
    pub open spec fn invest_amount(self, caller: Seq<char>, amount: int) -> Result<
        int,
        HealthAidWalletError,
    > {
        self.amount_to_move(caller, amount, self.balance)
    }

    /// An investment of `amount`, 0 for all of the available balance, to
    /// which the vault replied with the shares it issued, or not at all.
    pub open spec fn invest(
        self,
        caller: Seq<char>,
        amount: int,
        vault_reply: Option<int>,
        timestamp: nat,
    ) -> Result<WalletModel, HealthAidWalletError> {
        match self.invest_amount(caller, amount) {
            Err(e) => Err(e),
            Ok(placed) => if vault_reply.is_none() {
                Err(HealthAidWalletError::FailedToDeposit)
            } else {
                Ok(
                    WalletModel {
                        balance: self.balance - placed,
                        invested_amount: self.invested_amount + placed,
                        ..self
                    }.record(
                        TransactionType::Invest,
                        placed,
                        None,
                        None,
                        timestamp,
                        "Investment in DeFindex/Blend"@,
                    ),
                )
            },
        }
    }

    /// The amount that a request to redeem `amount` takes out of the vault.
    pub open spec fn redeem_amount(self, caller: Seq<char>, amount: int) -> Result<
        int,
        HealthAidWalletError,
    > {
        self.amount_to_move(caller, amount, self.invested_amount)
    }

    /// The withdrawal to ask of the vault for a redemption of `amount`, 0 for
    /// all that is invested, where the vault reports the figures `quote`.
    pub open spec fn redeem_withdrawal(
        self,
        caller: Seq<char>,
        amount: int,
        quote: Option<QuoteModel>,
    ) -> Result<WithdrawalModel, HealthAidWalletError> {
        match self.redeem_amount(caller, amount) {
            Err(e) => Err(e),
            Ok(taken) => match shares_needed(taken, quote) {
                Err(e) => Err(e),
                Ok(shares) => Ok(WithdrawalModel { shares, min_amount: taken }),
            },
        }
    }

    /// A redemption of `amount`, 0 for all that is invested, computed from
    /// the vault's figures `quote`, to which the vault replied with the
    /// amount it paid out, or not at all.
    pub open spec fn redeem(
        self,
        caller: Seq<char>,
        amount: int,
        quote: Option<QuoteModel>,
        vault_reply: Option<int>,
        timestamp: nat,
    ) -> Result<WalletModel, HealthAidWalletError> {
        match self.redeem_withdrawal(caller, amount, quote) {
            Err(e) => Err(e),
            Ok(w) => if vault_reply.is_none() {
                Err(HealthAidWalletError::FailedToWithdraw)
            } else {
                Ok(
                    WalletModel {
                        balance: self.balance + w.min_amount,
                        invested_amount: self.invested_amount - w.min_amount,
                        ..self
                    }.record(
                        TransactionType::Redeem,
                        w.min_amount,
                        None,
                        None,
                        timestamp,
                        "Redemption from DeFindex/Blend"@,
                    ),
                )
            },
        }
    }

    /// What to do for a payment of `amount` to `destination` out of the
    /// vault, where the allow-list said `is_provider`, the vault holds
    /// `vault_balance` for the wallet and reports the figures `quote`. The
    /// caller is checked first, then the amount, the allow-list, the balance
    /// in the vault, and last the figures.
    pub open spec fn vault_payment(
        self,
        caller: Seq<char>,
        destination: Seq<char>,
        amount: int,
        is_provider: bool,
        vault_balance: Option<int>,
        quote: Option<QuoteModel>,
    ) -> Result<VaultPaymentModel, HealthAidWalletError> {
        if caller != self.user {
            Err(HealthAidWalletError::Unauthorized)
        } else if amount <= 0 {
            Err(HealthAidWalletError::InvalidAmount)
        } else if !is_provider {
            Err(HealthAidWalletError::DestinationNotAllowed)
        } else if vault_balance.is_none() {
            Err(HealthAidWalletError::FailedToGetBalance)
        } else if vault_balance.unwrap() < amount {
            Err(HealthAidWalletError::InsufficientBalance)
        } else {
            match shares_needed(amount, quote) {
                Err(e) => Err(e),
                Ok(shares) => Ok(
                    VaultPaymentModel {
                        withdrawal: WithdrawalModel { shares, min_amount: amount },
                        transfer: TransferModel { destination, amount },
                    },
                ),
            }
        }
    }

    /// A payment of `amount` to `destination` out of the vault, to whose
    /// withdrawal the vault replied with the amount it paid out, or not at
    /// all. Neither balance of the wallet changes: the payment is recorded
    /// in the ledger.
    pub open spec fn pay_from_vault(
        self,
        caller: Seq<char>,
        destination: Seq<char>,
        amount: int,
        is_provider: bool,
        vault_balance: Option<int>,
        quote: Option<QuoteModel>,
        vault_reply: Option<int>,
        timestamp: nat,
    ) -> Result<WalletModel, HealthAidWalletError> {
        match self.vault_payment(caller, destination, amount, is_provider, vault_balance, quote) {
            Err(e) => Err(e),
            Ok(payment) => if vault_reply.is_none() {
                Err(HealthAidWalletError::FailedToWithdraw)
            } else {
                Ok(
                    self.record(
                        TransactionType::Payment,
                        payment.transfer.amount,
                        Some(payment.transfer.destination),
                        None,
                        timestamp,
                        "Payment to healthcare provider"@,
                    ),
                )
            },
        }
    }

    /// The creation of an empty fund under a new id.
    pub open spec fn create_fund(
        self,
        caller: Seq<char>,
        id: Seq<char>,
        target_amount: int,
        procedure_name: Seq<char>,
        timestamp: nat,
    ) -> Result<WalletModel, HealthAidWalletError> {
        if caller != self.user {
            Err(HealthAidWalletError::Unauthorized)
        } else if target_amount <= 0 {
            Err(HealthAidWalletError::InvalidAmount)
        } else if self.funds.dom().contains(id) {
            Err(HealthAidWalletError::FundAlreadyExists)
        } else {
            Ok(
                WalletModel {
                    funds: self.funds.insert(
                        id,
                        FundModel { id, target_amount, current_amount: 0, procedure_name },
                    ),
                    ..self
                }.record(
                    TransactionType::FundCreate,
                    target_amount,
                    None,
                    Some(id),
                    timestamp,
                    "Fund created for procedure"@,
                ),
            )
        }
    }

    /// A saving of `amount` from the available balance into a fund. A fund
    /// never takes more than it lacks: what is saved is `saved_amount`.
    pub open spec fn save_fund(self, caller: Seq<char>, id: Seq<char>, amount: int, timestamp: nat)
        -> Result<WalletModel, HealthAidWalletError> {
        if caller != self.user {
            Err(HealthAidWalletError::Unauthorized)
        } else if amount <= 0 {
            Err(HealthAidWalletError::InvalidAmount)
        } else if self.balance < amount {
            Err(HealthAidWalletError::InsufficientBalance)
        } else if !self.funds.dom().contains(id) {
            Err(HealthAidWalletError::FundNotFound)
        } else if self.funds[id].current_amount >= self.funds[id].target_amount {
            Err(HealthAidWalletError::FundTargetReached)
        } else {
            let fund = self.funds[id];
            let saved = saved_amount(fund, amount);
            Ok(
                WalletModel {
                    balance: self.balance - saved,
                    funds: self.funds.insert(
                        id,
                        FundModel { current_amount: fund.current_amount + saved, ..fund },
                    ),
                    ..self
                }.record(
                    TransactionType::FundSave,
                    saved,
                    None,
                    Some(id),
                    timestamp,
                    "Money saved to fund"@,
                ),
            )
        }
    }

    /// The release of a fund: all that it holds goes back to the available
    /// balance, and the fund is gone.
    pub open spec fn release_fund(self, caller: Seq<char>, id: Seq<char>, timestamp: nat) -> Result<
        WalletModel,
        HealthAidWalletError,
    > {
        if caller != self.user {
            Err(HealthAidWalletError::Unauthorized)
        } else if !self.funds.dom().contains(id) {
            Err(HealthAidWalletError::FundNotFound)
        } else {
            let released = self.funds[id].current_amount;
            Ok(
                WalletModel {
                    balance: self.balance + released,
                    funds: self.funds.remove(id),
                    ..self
                }.record(
                    TransactionType::FundRelease,
                    released,
                    None,
                    Some(id),
                    timestamp,
                    "Fund released back to wallet"@,
                ),
            )
        }
    }
}

} // verus!
