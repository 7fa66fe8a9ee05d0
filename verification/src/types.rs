//! The records of the wallet and their mathematical models.

use vstd::prelude::*;

verus! {

/// What a ledger entry records.
#[derive(Clone, Copy, Debug, PartialEq, Eq, Structural)]
pub enum TransactionType {
    Deposit,
    Payment,
    FundCreate,
    FundSave,
    FundRelease,
    Invest,
    Redeem,
    TokenSwap,
}

/// Why an operation of the wallet was refused. A refused operation changes
/// nothing. The errors are ordered as their codes are.
///
/// The codes 1001 to 1008 are those under which a wallet without a vault
/// reports its errors. A wallet that deals only with the vault reports
/// `FailedToDeposit`, `FailedToGetBalance` and `FailedToWithdraw` as 1004,
/// 1005 and 1006; here those numbers belong to the fund errors, so the three
/// follow from 1009.
#[derive(Clone, Copy, Debug, PartialEq, Eq, PartialOrd, Ord, Structural)]
pub enum HealthAidWalletError {
    /// The caller is not the owner of the wallet.
    Unauthorized,
    /// The amount asked for exceeds the balance it is taken from.
    InsufficientBalance,
    /// The allow-list does not approve the destination.
    DestinationNotAllowed,
    /// No fund has the given id.
    FundNotFound,
    /// The fund already holds its target amount.
    FundTargetReached,
    /// The amount is not positive where a positive amount is needed, or a
    /// swap yielded a negative amount.
    InvalidAmount,
    /// The swap failed or yielded less than the minimum asked for.
    SwapFailed,
    /// The token is not one that can be deposited. Every token can, so no
    /// operation of the wallet gives this error; it keeps its code.
    InvalidToken,
    /// The vault did not accept the deposit.
    FailedToDeposit,
    /// The vault did not report the balance held in it.
    FailedToGetBalance,
    /// The vault did not carry out the withdrawal, or reported figures that
    /// no withdrawal can be computed from.
    FailedToWithdraw,
    /// The price oracle gave no rate.
    OracleUnavailable,
    /// A fund with this id exists already.
    FundAlreadyExists,
}

impl HealthAidWalletError {
    /// The numeric code under which the error is reported to the host.
    pub open spec fn spec_code(self) -> u32 {
        match self {
            HealthAidWalletError::Unauthorized => 1001,
            HealthAidWalletError::InsufficientBalance => 1002,
            HealthAidWalletError::DestinationNotAllowed => 1003,
            HealthAidWalletError::FundNotFound => 1004,
            HealthAidWalletError::FundTargetReached => 1005,
            HealthAidWalletError::InvalidAmount => 1006,
            HealthAidWalletError::SwapFailed => 1007,
            HealthAidWalletError::InvalidToken => 1008,
            HealthAidWalletError::FailedToDeposit => 1009,
            HealthAidWalletError::FailedToGetBalance => 1010,
            HealthAidWalletError::FailedToWithdraw => 1011,
            HealthAidWalletError::OracleUnavailable => 1012,
            HealthAidWalletError::FundAlreadyExists => 1013,
        }
    }

    /// The numeric code under which the error is reported to the host.
    pub fn code(&self) -> (c: u32)
        ensures
            c == self.spec_code(),
    {
        match self {
            HealthAidWalletError::Unauthorized => 1001,
            HealthAidWalletError::InsufficientBalance => 1002,
            HealthAidWalletError::DestinationNotAllowed => 1003,
            HealthAidWalletError::FundNotFound => 1004,
            HealthAidWalletError::FundTargetReached => 1005,
            HealthAidWalletError::InvalidAmount => 1006,
            HealthAidWalletError::SwapFailed => 1007,
            HealthAidWalletError::InvalidToken => 1008,
            HealthAidWalletError::FailedToDeposit => 1009,
            HealthAidWalletError::FailedToGetBalance => 1010,
            HealthAidWalletError::FailedToWithdraw => 1011,
            HealthAidWalletError::OracleUnavailable => 1012,
            HealthAidWalletError::FundAlreadyExists => 1013,
        }
    }
}

/// A fund as a mathematical value.
pub struct FundModel {
    pub id: Seq<char>,
    pub target_amount: int,
    pub current_amount: int,
    pub procedure_name: Seq<char>,
}

impl FundModel {
    /// A fund has a positive target and holds between nothing and its target.
    pub open spec fn valid(self) -> bool {
        0 < self.target_amount && 0 <= self.current_amount <= self.target_amount
    }
}

/// A sub-balance set aside for one procedure.
#[derive(Debug, PartialEq, Eq)]
pub struct Fund {
    pub id: String,
    pub target_amount: i128,
    pub current_amount: i128,
    pub procedure_name: String,
}

impl View for Fund {
    type V = FundModel;

    open spec fn view(&self) -> FundModel {
        FundModel {
            id: self.id@,
            target_amount: self.target_amount as int,
            current_amount: self.current_amount as int,
            procedure_name: self.procedure_name@,
        }
    }
}

impl Clone for Fund {
    fn clone(&self) -> (r: Self)
        ensures
            r == *self,
    {
        Fund {
            id: self.id.clone(),
            target_amount: self.target_amount,
            current_amount: self.current_amount,
            procedure_name: self.procedure_name.clone(),
        }
    }
}

/// A ledger entry as a mathematical value.
pub struct TransactionModel {
    pub id: nat,
    pub transaction_type: TransactionType,
    pub amount: int,
    pub destination: Option<Seq<char>>,
    pub fund_id: Option<Seq<char>>,
    pub timestamp: nat,
    pub description: Seq<char>,
}

/// One entry of the ledger. Once appended it is never changed.
#[derive(Debug, PartialEq, Eq)]
pub struct Transaction {
    pub id: u64,
    pub transaction_type: TransactionType,
    pub amount: i128,
    pub destination: Option<String>,
    pub fund_id: Option<String>,
    pub timestamp: u64,
    pub description: String,
}

/// The model of an optional text.
pub open spec fn text_option_view(t: Option<String>) -> Option<Seq<char>> {
    match t {
        Some(s) => Some(s@),
        None => None,
    }
}

/// Copies an optional text.
pub fn clone_text_option(t: &Option<String>) -> (r: Option<String>)
    ensures
        r == *t,
{
    match t {
        Some(s) => Some(s.clone()),
        None => None,
    }
}

impl View for Transaction {
    type V = TransactionModel;

    open spec fn view(&self) -> TransactionModel {
        TransactionModel {
            id: self.id as nat,
            transaction_type: self.transaction_type,
            amount: self.amount as int,
            destination: text_option_view(self.destination),
            fund_id: text_option_view(self.fund_id),
            timestamp: self.timestamp as nat,
            description: self.description@,
        }
    }
}

impl Clone for Transaction {
    fn clone(&self) -> (r: Self)
        ensures
            r == *self,
    {
        Transaction {
            id: self.id,
            transaction_type: self.transaction_type,
            amount: self.amount,
            destination: clone_text_option(&self.destination),
            fund_id: clone_text_option(&self.fund_id),
            timestamp: self.timestamp,
            description: self.description.clone(),
        }
    }
}

} // verus!
