//! The wallet: balances, funds and ledger of one owner, and the operations
//! on them. Each operation is the step of `WalletModel` of the same name.

use vstd::prelude::*;
use crate::key_order::ascending;
use crate::funds::FundBook;
use crate::funds::all_valid;
use crate::funds::distinct_ids;
use crate::funds::fund_map;
use crate::funds::total_saved;
use crate::funds::fund_index;
use crate::funds::fund_keys;
use crate::funds::fund_models;
use crate::funds::lemma_fund_map_at;
use crate::funds::lemma_total_saved_nonnegative;
use crate::ledger::Ledger;
use crate::ledger::entry_models;
use crate::ledger::entry_option_is;
use crate::ledger::entry_with_id;
use crate::ledger::numbered;
use crate::ledger::of_kind;
use crate::model::QuoteModel;
use crate::model::SwapModel;
use crate::model::TransferModel;
use crate::model::WalletModel;
use crate::types::Fund;
use crate::types::FundModel;
use crate::types::HealthAidWalletError;
use crate::types::Transaction;
use crate::types::TransactionModel;
use crate::types::TransactionType;

verus! {

/// What the vault reports of itself: the shares outstanding and the value
/// under management.
#[derive(Clone, Copy, Debug, PartialEq, Eq, Structural)]
pub struct VaultQuote {
    pub total_supply: i128,
    pub total_managed_value: i128,
}

impl View for VaultQuote {
    type V = QuoteModel;

    open spec fn view(&self) -> QuoteModel {
        QuoteModel {
            total_supply: self.total_supply as int,
            total_managed_value: self.total_managed_value as int,
        }
    }
}

/// A deposit to ask of the vault.
#[derive(Clone, Copy, Debug, PartialEq, Eq, Structural)]
pub struct VaultDeposit {
    pub amount: i128,
    pub min_shares: i128,
    pub all_or_nothing: bool,
}

/// A withdrawal to ask of the vault.
#[derive(Clone, Copy, Debug, PartialEq, Eq, Structural)]
pub struct VaultWithdrawal {
    pub shares: i128,
    pub min_amount: i128,
}

/// A transfer of the stable asset out of the wallet.
#[derive(Clone, Debug, PartialEq, Eq)]
pub struct AssetTransfer {
    pub destination: String,
    pub amount: i128,
}

impl View for AssetTransfer {
    type V = TransferModel;

    open spec fn view(&self) -> TransferModel {
        TransferModel { destination: self.destination@, amount: self.amount as int }
    }
}

/// A swap to ask of the swap collaborator: `amount_in` of `token_in`, pulled
/// from `owner`, for no less than `min_amount_out` of `token_out`.
#[derive(Clone, Debug, PartialEq, Eq)]
pub struct SwapRequest {
    pub owner: String,
    pub token_in: String,
    pub token_out: String,
    pub amount_in: i128,
    pub min_amount_out: i128,
}

impl View for SwapRequest {
    type V = SwapModel;

    open spec fn view(&self) -> SwapModel {
        SwapModel {
            owner: self.owner@,
            token_in: self.token_in@,
            token_out: self.token_out@,
            amount_in: self.amount_in as int,
            min_amount_out: self.min_amount_out as int,
        }
    }
}

/// The model of figures that the vault may have given.
pub open spec fn quote_view(quote: Option<VaultQuote>) -> Option<QuoteModel> {
    match quote {
        Some(q) => Some(q@),
        None => None,
    }
}

/// The model of an amount that a collaborator may have given.
pub open spec fn amount_view(amount: Option<i128>) -> Option<int> {
    match amount {
        Some(a) => Some(a as int),
        None => None,
    }
}

/// The wallet of one owner.
#[derive(Clone, Debug, PartialEq, Eq)]
pub struct HealthAidWallet {
    pub user: String,
    pub registry_address: String,
    pub usdc_token: String,
    pub soroswap_contract: String,
    pub defindex_contract: String,
    pub reflector_contract: String,
    pub balance: i128,
    pub invested_amount: i128,
    pub funds: FundBook,
    pub ledger: Ledger,
}

impl View for HealthAidWallet {
    type V = WalletModel;

    open spec fn view(&self) -> WalletModel {
        WalletModel {
            user: self.user@,
            registry_address: self.registry_address@,
            usdc_token: self.usdc_token@,
            soroswap_contract: self.soroswap_contract@,
            defindex_contract: self.defindex_contract@,
            reflector_contract: self.reflector_contract@,
            balance: self.balance as int,
            invested_amount: self.invested_amount as int,
            funds: self.funds@,
            history: self.ledger@,
        }
    }
}

/// The parts that a wallet can be made of: neither balance is negative, the
/// funds are valid and no two have the same id, the counter is the number of
/// entries, the entries are numbered 1, 2, 3, …, and the balances and what
/// the funds hold together fit in an `i128`.
pub open spec fn restorable(
    balance: int,
    invested_amount: int,
    funds: Seq<FundModel>,
    history: Seq<TransactionModel>,
    counter: nat,
) -> bool {
    &&& 0 <= balance
    &&& 0 <= invested_amount
    &&& all_valid(funds)
    &&& distinct_ids(funds)
    &&& counter == history.len()
    &&& numbered(history)
    &&& balance + invested_amount + total_saved(funds) <= i128::MAX
}

/// An operation did what its step says: it succeeded and left the wallet in
/// the state that the step yields, or it failed for the reason that the step
/// names and left the wallet as it was.
pub open spec fn settles(
    step: Result<WalletModel, HealthAidWalletError>,
    r: Result<(), HealthAidWalletError>,
    before: HealthAidWallet,
    after: HealthAidWallet,
) -> bool {
    match step {
        Ok(next) => r.is_ok() && after.wf() && after@ == next,
        Err(e) => r == Err::<(), HealthAidWalletError>(e) && after == before,
    }
}

impl HealthAidWallet {
    /// All that the wallet accounts for: the available balance, the amount
    /// invested and what the funds hold.
    pub open spec fn total_value(&self) -> int {
        self.balance + self.invested_amount + self.funds.total()
    }

    /// The funds and the ledger are well formed, neither balance is negative,
    /// and all that the wallet accounts for fits in an `i128`.
    pub open spec fn wf(&self) -> bool {
        &&& self.funds.wf()
        &&& self.ledger.wf()
        &&& 0 <= self.balance
        &&& 0 <= self.invested_amount
        &&& self.total_value() <= i128::MAX
    }

    /// A well-formed wallet is in a valid state, and its funds hold no
    /// negative sum.
    pub proof fn lemma_wf_valid(&self)
        requires
            self.wf(),
        ensures
            self@.valid(),
            0 <= self.funds.total(),
    {
        let list = self.funds.listing();
        lemma_total_saved_nonnegative(list);
        assert forall|id: Seq<char>| #[trigger] self@.funds.dom().contains(id) implies self@.funds[id].valid()
            && self@.funds[id].id == id by {
            let i = fund_index(list, id);
            lemma_fund_map_at(list, i);
        }
    }

    /// A wallet with nothing in it: no balance, no funds, an empty ledger.
    pub fn new(
        user: String,
        registry_address: String,
        usdc_token: String,
        soroswap_contract: String,
        defindex_contract: String,
        reflector_contract: String,
    ) -> (r: HealthAidWallet)
        ensures
            r.wf(),
            r@ == (WalletModel {
                user: user@,
                registry_address: registry_address@,
                usdc_token: usdc_token@,
                soroswap_contract: soroswap_contract@,
                defindex_contract: defindex_contract@,
                reflector_contract: reflector_contract@,
                balance: 0,
                invested_amount: 0,
                funds: Map::empty(),
                history: Seq::empty(),
            }),
    {
        HealthAidWallet {
            user,
            registry_address,
            usdc_token,
            soroswap_contract,
            defindex_contract,
            reflector_contract,
            balance: 0,
            invested_amount: 0,
            funds: FundBook::new(),
            ledger: Ledger::new(),
        }
    }

    /// The wallet that holds the given parts. There is none unless the parts
    /// are `restorable`. Funds given in ascending order of id are kept as
    /// they were given.
    pub fn restore(
        user: String,
        registry_address: String,
        usdc_token: String,
        soroswap_contract: String,
        defindex_contract: String,
        reflector_contract: String,
        balance: i128,
        invested_amount: i128,
        funds: &Vec<Fund>,
        entries: Vec<Transaction>,
        counter: u64,
    ) -> (r: Option<HealthAidWallet>)
        ensures
            r.is_some() == restorable(
                balance as int,
                invested_amount as int,
                fund_models(funds@),
                entry_models(entries@),
                counter as nat,
            ),
            r.is_some() ==> r.unwrap().wf() && r.unwrap()@ == (WalletModel {
                user: user@,
                registry_address: registry_address@,
                usdc_token: usdc_token@,
                soroswap_contract: soroswap_contract@,
                defindex_contract: defindex_contract@,
                reflector_contract: reflector_contract@,
                balance: balance as int,
                invested_amount: invested_amount as int,
                funds: fund_map(fund_models(funds@)),
                history: entry_models(entries@),
            }),
            r.is_some() && ascending(fund_keys(fund_models(funds@))) ==> r.unwrap().funds.listing()
                == fund_models(funds@),
    {
        if balance < 0 || invested_amount < 0 {
            return None;
        }
        let book = match FundBook::restore(funds) {
            Some(b) => b,
            None => {
                return None;
            },
        };
        let ledger = match Ledger::restore(entries, counter) {
            Some(l) => l,
            None => {
                return None;
            },
        };
        let held = match book.held() {
            Some(t) => t,
            None => {
                return None;
            },
        };
        proof {
            lemma_total_saved_nonnegative(book.listing());
        }
        let on_hand = match balance.checked_add(invested_amount) {
            Some(t) => t,
            None => {
                return None;
            },
        };
        if on_hand.checked_add(held).is_none() {
            return None;
        }
        Some(
            HealthAidWallet {
                user,
                registry_address,
                usdc_token,
                soroswap_contract,
                defindex_contract,
                reflector_contract,
                balance,
                invested_amount,
                funds: book,
                ledger,
            },
        )
    }

    /// All that the wallet accounts for: the available balance, the amount
    /// invested and what the funds hold.
    pub fn get_total_value(&self) -> (r: i128)
        requires
            self.wf(),
        ensures
            r == self.total_value(),
    {
        let held: i128 = self.funds.held().unwrap();
        proof {
            self.lemma_wf_valid();
        }
        self.balance + self.invested_amount + held
    }

    /// Whether `amount` more would still fit in what the wallet can account
    /// for.
    pub fn can_deposit(&self, amount: i128) -> (r: bool)
        requires
            self.wf(),
        ensures
            r == (self.total_value() + amount <= i128::MAX),
    {
        let total: i128 = self.get_total_value();
        proof {
            self.lemma_wf_valid();
        }
        amount <= i128::MAX - total
    }

    /// The owner of the wallet.
    pub fn get_user(&self) -> (r: String)
        ensures
            r@ == self@.user,
    {
        self.user.clone()
    }

    /// The allow-list registry that approves destinations.
    pub fn get_registry_address(&self) -> (r: String)
        ensures
            r@ == self@.registry_address,
    {
        self.registry_address.clone()
    }

    /// The stable asset.
    pub fn get_usdc_token(&self) -> (r: String)
        ensures
            r@ == self@.usdc_token,
    {
        self.usdc_token.clone()
    }

    /// The swap collaborator.
    pub fn get_soroswap_contract(&self) -> (r: String)
        ensures
            r@ == self@.soroswap_contract,
    {
        self.soroswap_contract.clone()
    }

    /// The yield vault.
    pub fn get_defindex_contract(&self) -> (r: String)
        ensures
            r@ == self@.defindex_contract,
    {
        self.defindex_contract.clone()
    }

    /// The price oracle.
    pub fn get_reflector_contract(&self) -> (r: String)
        ensures
            r@ == self@.reflector_contract,
    {
        self.reflector_contract.clone()
    }

    /// The available balance.
    pub fn get_balance(&self) -> (r: i128)
        ensures
            r == self@.balance,
    {
        self.balance
    }

    /// The balance of the stable asset that the wallet accounts for as
    /// available.
    pub fn get_usdc_balance(&self) -> (r: i128)
        ensures
            r == self@.balance,
    {
        self.get_balance()
    }

    /// The amount placed in the vault.
    pub fn get_invested_amount(&self) -> (r: i128)
        ensures
            r == self@.invested_amount,
    {
        self.invested_amount
    }

    /// The available balance and the amount invested together.
    pub fn get_total_balance(&self) -> (r: i128)
        requires
            self.wf(),
        ensures
            r == self@.balance + self@.invested_amount,
    {
        proof {
            self.lemma_wf_valid();
        }
        self.balance + self.invested_amount
    }

    /// Credits `amount` to the available balance and records the deposit.
    /// Refused with `Unauthorized` where the caller is not the owner, and
    /// with `InvalidAmount` where the amount is not positive.
    pub fn deposit(&mut self, caller: &String, amount: i128, timestamp: u64) -> (r: Result<
        (),
        HealthAidWalletError,
    >)
        requires
            old(self).wf(),
            old(self).total_value() + amount <= i128::MAX,
        ensures
            settles(
                old(self)@.deposit(caller@, amount as int, timestamp as nat),
                r,
                *old(self),
                *final(self),
            ),
            r.is_ok() ==> final(self).total_value() == old(self).total_value() + amount,
    {
        if !(*caller == self.user) {
            return Err(HealthAidWalletError::Unauthorized);
        }
        if amount <= 0 {
            return Err(HealthAidWalletError::InvalidAmount);
        }
        proof {
            self.lemma_wf_valid();
        }
        self.balance = self.balance + amount;
        self.ledger.add_transaction(
            TransactionType::Deposit,
            amount,
            None,
            None,
            timestamp,
            "USDC deposit".to_owned(),
        );
        Ok(())
    }

    /// The swap to ask for on a deposit of `amount` of the token: none for
    /// the stable asset, which is deposited as it is. Refused with
    /// `Unauthorized`, and with `InvalidAmount` where the amount is not
    /// positive.
    pub fn plan_deposit_with_swap(
        &self,
        caller: &String,
        token_address: &String,
        amount: i128,
        min_usdc_out: i128,
    ) -> (r: Result<Option<SwapRequest>, HealthAidWalletError>)
        ensures
            match self@.swap_request(caller@, token_address@, amount as int, min_usdc_out as int) {
                Ok(Some(swap)) => r.is_ok() && r.unwrap().is_some() && r.unwrap().unwrap()@ == swap,
                Ok(None) => r.is_ok() && r.unwrap().is_none(),
                Err(e) => r.is_err() && r.unwrap_err() == e,
            },
    {
        if !(*caller == self.user) {
            return Err(HealthAidWalletError::Unauthorized);
        }
        if amount <= 0 {
            return Err(HealthAidWalletError::InvalidAmount);
        }
        if *token_address == self.usdc_token {
            return Ok(None);
        }
        Ok(
            Some(
                SwapRequest {
                    owner: self.user.clone(),
                    token_in: token_address.clone(),
                    token_out: self.usdc_token.clone(),
                    amount_in: amount,
                    min_amount_out: min_usdc_out,
                },
            ),
        )
    }

    /// Deposits `amount` of a token. The stable asset itself is deposited as
    /// by `deposit`, whatever `swap_reply` is. For another token
    /// `swap_reply` is the reply to the swap planned by
    /// `plan_deposit_with_swap`: what the swap yielded of the stable asset,
    /// or `None` where it failed. A swap that failed, or that yielded less
    /// than `min_usdc_out`, is `SwapFailed`. A yield that meets the minimum
    /// is credited and recorded, a yield of 0 included; a negative one is no
    /// amount that can be credited, and is refused as `InvalidAmount`.
    pub fn deposit_with_swap(
        &mut self,
        caller: &String,
        token_address: &String,
        amount: i128,
        min_usdc_out: i128,
        swap_reply: Option<i128>,
        timestamp: u64,
    ) -> (r: Result<(), HealthAidWalletError>)
        requires
            old(self).wf(),
            token_address@ == old(self)@.usdc_token ==> old(self).total_value() + amount
                <= i128::MAX,
            token_address@ != old(self)@.usdc_token && swap_reply.is_some() ==> old(
                self,
            ).total_value() + swap_reply.unwrap() <= i128::MAX,
        ensures
            settles(
                old(self)@.deposit_with_swap(
                    caller@,
                    token_address@,
                    amount as int,
                    min_usdc_out as int,
                    amount_view(swap_reply),
                    timestamp as nat,
                ),
                r,
                *old(self),
                *final(self),
            ),
            r.is_ok() ==> final(self).total_value() == old(self).total_value() + (if token_address@
                == old(self)@.usdc_token {
                amount
            } else {
                swap_reply.unwrap()
            }),
    {
        if !(*caller == self.user) {
            return Err(HealthAidWalletError::Unauthorized);
        }
        if amount <= 0 {
            return Err(HealthAidWalletError::InvalidAmount);
        }
        if *token_address == self.usdc_token {
            return self.deposit(caller, amount, timestamp);
        }
        let usdc_received: i128 = match swap_reply {
            Some(received) => received,
            None => {
                return Err(HealthAidWalletError::SwapFailed);
            },
        };
        if usdc_received < min_usdc_out {
            return Err(HealthAidWalletError::SwapFailed);
        }
        if usdc_received < 0 {
            return Err(HealthAidWalletError::InvalidAmount);
        }
        proof {
            self.lemma_wf_valid();
        }
        self.balance = self.balance + usdc_received;
        self.ledger.add_transaction(
            TransactionType::TokenSwap,
            usdc_received,
            None,
            None,
            timestamp,
            "Token swap deposit".to_owned(),
        );
        Ok(())
    }

    /// The transfer to make for a payment of `amount` from the available
    /// balance to `destination`, of which the allow-list said `is_provider`.
    /// Refused, in this order, with `Unauthorized`, with `InvalidAmount`
    /// where the amount is not positive, with `DestinationNotAllowed`, and
    /// with `InsufficientBalance` where the amount exceeds the available
    /// balance.
    pub fn plan_pay(&self, caller: &String, destination: &String, amount: i128, is_provider: bool)
        -> (r: Result<AssetTransfer, HealthAidWalletError>)
        ensures
            match self@.payment_transfer(caller@, destination@, amount as int, is_provider) {
                Ok(transfer) => r.is_ok() && r.unwrap()@ == transfer,
                Err(e) => r.is_err() && r.unwrap_err() == e,
            },
    {
        if !(*caller == self.user) {
            return Err(HealthAidWalletError::Unauthorized);
        }
        if amount <= 0 {
            return Err(HealthAidWalletError::InvalidAmount);
        }
        if !is_provider {
            return Err(HealthAidWalletError::DestinationNotAllowed);
        }
        if self.balance < amount {
            return Err(HealthAidWalletError::InsufficientBalance);
        }
        Ok(AssetTransfer { destination: destination.clone(), amount })
    }

    /// Settles a payment of `amount` from the available balance to
    /// `destination`, of which the allow-list said `is_provider`: the amount
    /// leaves the available balance, and the payment is recorded. A payment
    /// that `plan_pay` refuses is refused here for the same reason.
    pub fn pay(
        &mut self,
        caller: &String,
        destination: &String,
        amount: i128,
        is_provider: bool,
        timestamp: u64,
    ) -> (r: Result<(), HealthAidWalletError>)
        requires
            old(self).wf(),
        ensures
            settles(
                old(self)@.pay(caller@, destination@, amount as int, is_provider, timestamp as nat),
                r,
                *old(self),
                *final(self),
            ),
            r.is_ok() ==> final(self).total_value() == old(self).total_value() - amount,
    {
        let transfer = match self.plan_pay(caller, destination, amount, is_provider) {
            Ok(t) => t,
            Err(e) => {
                return Err(e);
            },
        };
        self.balance = self.balance - amount;
        self.ledger.add_transaction(
            TransactionType::Payment,
            amount,
            Some(transfer.destination),
            None,
            timestamp,
            "Payment to healthcare provider".to_owned(),
        );
        Ok(())
    }

    /// Creates an empty fund with the given target under a new id and
    /// records it. Refused with `Unauthorized`, with `InvalidAmount` where
    /// the target is not positive, and with `FundAlreadyExists` where the id
    /// is taken.
    pub fn create_fund(
        &mut self,
        caller: &String,
        id: String,
        target_amount: i128,
        procedure_name: String,
        timestamp: u64,
    ) -> (r: Result<(), HealthAidWalletError>)
        requires
            old(self).wf(),
        ensures
            settles(
                old(self)@.create_fund(
                    caller@,
                    id@,
                    target_amount as int,
                    procedure_name@,
                    timestamp as nat,
                ),
                r,
                *old(self),
                *final(self),
            ),
            r.is_ok() ==> final(self).total_value() == old(self).total_value(),
    {
        if !(*caller == self.user) {
            return Err(HealthAidWalletError::Unauthorized);
        }
        if target_amount <= 0 {
            return Err(HealthAidWalletError::InvalidAmount);
        }
        if self.funds.contains(&id) {
            return Err(HealthAidWalletError::FundAlreadyExists);
        }
        let fund = Fund {
            id: id.clone(),
            target_amount,
            current_amount: 0,
            procedure_name,
        };
        self.funds.insert(fund);
        self.ledger.add_transaction(
            TransactionType::FundCreate,
            target_amount,
            None,
            Some(id),
            timestamp,
            "Fund created for procedure".to_owned(),
        );
        Ok(())
    }

    /// Moves `amount` from the available balance into a fund, but no more
    /// than the fund lacks, and records what was moved. Refused with
    /// `Unauthorized`, `InvalidAmount`, `InsufficientBalance` where the
    /// balance is less than `amount`, `FundNotFound`, or `FundTargetReached`
    /// where the fund lacks nothing, the first of these that applies.
    pub fn save_fund(&mut self, caller: &String, id: String, amount: i128, timestamp: u64) -> (r:
        Result<(), HealthAidWalletError>)
        requires
            old(self).wf(),
        ensures
            settles(
                old(self)@.save_fund(caller@, id@, amount as int, timestamp as nat),
                r,
                *old(self),
                *final(self),
            ),
            r.is_ok() ==> final(self).total_value() == old(self).total_value(),
    {
        if !(*caller == self.user) {
            return Err(HealthAidWalletError::Unauthorized);
        }
        if amount <= 0 {
            return Err(HealthAidWalletError::InvalidAmount);
        }
        if self.balance < amount {
            return Err(HealthAidWalletError::InsufficientBalance);
        }
        let fund = match self.funds.get(&id) {
            Some(f) => f,
            None => {
                return Err(HealthAidWalletError::FundNotFound);
            },
        };
        proof {
            self.lemma_wf_valid();
        }
        if fund.current_amount >= fund.target_amount {
            return Err(HealthAidWalletError::FundTargetReached);
        }
        let lacking: i128 = fund.target_amount - fund.current_amount;
        let saved: i128 = if amount <= lacking {
            amount
        } else {
            lacking
        };
        self.funds.add_to(&id, saved);
        self.balance = self.balance - saved;
        self.ledger.add_transaction(
            TransactionType::FundSave,
            saved,
            None,
            Some(id),
            timestamp,
            "Money saved to fund".to_owned(),
        );
        Ok(())
    }

    /// Returns all that a fund holds to the available balance, removes the
    /// fund and records the release. Refused with `Unauthorized`, and with
    /// `FundNotFound` where no fund has the id.
    pub fn release_fund(&mut self, caller: &String, id: String, timestamp: u64) -> (r: Result<
        (),
        HealthAidWalletError,
    >)
        requires
            old(self).wf(),
        ensures
            settles(
                old(self)@.release_fund(caller@, id@, timestamp as nat),
                r,
                *old(self),
                *final(self),
            ),
            r.is_ok() ==> final(self).total_value() == old(self).total_value(),
    {
        if !(*caller == self.user) {
            return Err(HealthAidWalletError::Unauthorized);
        }
        proof {
            self.lemma_wf_valid();
        }
        let fund = match self.funds.remove(&id) {
            Some(f) => f,
            None => {
                return Err(HealthAidWalletError::FundNotFound);
            },
        };
        let released: i128 = fund.current_amount;
        proof {
            lemma_total_saved_nonnegative(self.funds.listing());
        }
        self.balance = self.balance + released;
        self.ledger.add_transaction(
            TransactionType::FundRelease,
            released,
            None,
            Some(id),
            timestamp,
            "Fund released back to wallet".to_owned(),
        );
        Ok(())
    }

    /// The fund with the given id, or `FundNotFound`.
    pub fn get_fund(&self, id: &String) -> (r: Result<Fund, HealthAidWalletError>)
        requires
            self.wf(),
        ensures
            match r {
                Ok(f) => self@.funds.dom().contains(id@) && f@ == self@.funds[id@],
                Err(e) => !self@.funds.dom().contains(id@) && e
                    == HealthAidWalletError::FundNotFound,
            },
    {
        match self.funds.get(id) {
            Some(f) => Ok(f),
            None => Err(HealthAidWalletError::FundNotFound),
        }
    }

    /// All funds, in ascending order of id.
    pub fn get_all_funds(&self) -> (r: Vec<Fund>)
        ensures
            fund_map(fund_models(r@)) == self@.funds,
            self.wf() ==> ascending(fund_keys(fund_models(r@))),
    {
        self.funds.get_all_funds()
    }

    /// All ledger entries, oldest first.
    pub fn get_history(&self) -> (r: Vec<Transaction>)
        ensures
            entry_models(r@) == self@.history,
    {
        self.ledger.get_history()
    }

    /// The ledger entry with the given id; `None` where there is none.
    pub fn get_transaction(&self, transaction_id: u64) -> (r: Option<Transaction>)
        requires
            self.wf(),
        ensures
            entry_option_is(r, entry_with_id(self@.history, transaction_id as nat)),
    {
        self.ledger.get_transaction(transaction_id)
    }

    /// The ledger entries of one kind, oldest first.
    pub fn get_transactions_by_type(&self, transaction_type: TransactionType) -> (r: Vec<
        Transaction,
    >)
        ensures
            entry_models(r@) == self@.history.filter(of_kind(transaction_type)),
    {
        self.ledger.get_transactions_by_type(transaction_type)
    }

    /// The number of ledger entries.
    pub fn get_transaction_count(&self) -> (n: u64)
        requires
            self.wf(),
        ensures
            n == self@.history.len(),
    {
        self.ledger.get_transaction_count()
    }

    /// The tokens that can be swapped into the stable asset besides the
    /// stable asset itself: none is listed.
    pub fn get_supported_tokens(&self) -> (r: Vec<String>)
        ensures
            r@.len() == 0,
    {
        Vec::new()
    }

    /// Whether a token can be deposited: every token can, the stable asset
    /// as it is and any other through a swap.
    pub fn is_token_supported(&self, token_address: &String) -> (r: bool)
        ensures
            r,
    {
        true
    }

    /// The amount of the stable asset that `amount` of a token is estimated
    /// to yield: the same amount, for the stable asset and for any other
    /// token.
    pub fn get_swap_estimate(&self, token_address: &String, amount: i128) -> (r: i128)
        ensures
            r == amount,
    {
        amount
    }
}

} // verus!
