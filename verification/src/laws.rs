//! What holds of the wallet whatever is asked of it: the operations as one
//! step function, runs of operations, and the laws of both.

use vstd::prelude::*;
use crate::ledger::numbered;
use crate::model::QuoteModel;
use crate::model::WalletModel;
use crate::types::HealthAidWalletError;

verus! {

/// One request to the wallet, with all that its collaborators answered.
pub enum Operation {
    Deposit { caller: Seq<char>, amount: int, timestamp: nat },
    DepositWithSwap {
        caller: Seq<char>,
        token: Seq<char>,
        amount: int,
        min_usdc_out: int,
        swap_reply: Option<int>,
        timestamp: nat,
    },
    Pay { caller: Seq<char>, destination: Seq<char>, amount: int, is_provider: bool, timestamp: nat },
    Invest { caller: Seq<char>, amount: int, vault_reply: Option<int>, timestamp: nat },
    Redeem {
        caller: Seq<char>,
        amount: int,
        quote: Option<QuoteModel>,
        vault_reply: Option<int>,
        timestamp: nat,
    },
    PayFromVault {
        caller: Seq<char>,
        destination: Seq<char>,
        amount: int,
        is_provider: bool,
        vault_balance: Option<int>,
        quote: Option<QuoteModel>,
        vault_reply: Option<int>,
        timestamp: nat,
    },
    CreateFund {
        caller: Seq<char>,
        id: Seq<char>,
        target_amount: int,
        procedure_name: Seq<char>,
        timestamp: nat,
    },
    SaveFund { caller: Seq<char>, id: Seq<char>, amount: int, timestamp: nat },
    ReleaseFund { caller: Seq<char>, id: Seq<char>, timestamp: nat },
}

/// What a request yields in a state: the next state, or the reason for which
/// it is refused.
pub open spec fn step(w: WalletModel, op: Operation) -> Result<WalletModel, HealthAidWalletError> {
    match op {
        Operation::Deposit { caller, amount, timestamp } => w.deposit(caller, amount, timestamp),
        Operation::DepositWithSwap {
            caller,
            token,
            amount,
            min_usdc_out,
            swap_reply,
            timestamp,
        } => w.deposit_with_swap(caller, token, amount, min_usdc_out, swap_reply, timestamp),
        Operation::Pay { caller, destination, amount, is_provider, timestamp } => w.pay(
            caller,
            destination,
            amount,
            is_provider,
            timestamp,
        ),
        Operation::Invest { caller, amount, vault_reply, timestamp } => w.invest(
            caller,
            amount,
            vault_reply,
            timestamp,
        ),
        Operation::Redeem { caller, amount, quote, vault_reply, timestamp } => w.redeem(
            caller,
            amount,
            quote,
            vault_reply,
            timestamp,
        ),
        Operation::PayFromVault {
            caller,
            destination,
            amount,
            is_provider,
            vault_balance,
            quote,
            vault_reply,
            timestamp,
        } => w.pay_from_vault(
            caller,
            destination,
            amount,
            is_provider,
            vault_balance,
            quote,
            vault_reply,
            timestamp,
        ),
        Operation::CreateFund { caller, id, target_amount, procedure_name, timestamp } =>
            w.create_fund(caller, id, target_amount, procedure_name, timestamp),
        Operation::SaveFund { caller, id, amount, timestamp } => w.save_fund(
            caller,
            id,
            amount,
            timestamp,
        ),
        Operation::ReleaseFund { caller, id, timestamp } => w.release_fund(caller, id, timestamp),
    }
}

/// The state after a request: the next state, or the same state where the
/// request is refused.
pub open spec fn apply(w: WalletModel, op: Operation) -> WalletModel {
    match step(w, op) {
        Ok(next) => next,
        Err(_) => w,
    }
}

/// The state after a run of requests, made one after the other.
pub open spec fn run(w: WalletModel, ops: Seq<Operation>) -> WalletModel
    decreases ops.len(),
{
    if ops.len() == 0 {
        w
    } else {
        apply(run(w, ops.drop_last()), ops.last())
    }
}

/// How many requests of a run are accepted.
pub open spec fn accepted(w: WalletModel, ops: Seq<Operation>) -> nat
    decreases ops.len(),
{
    if ops.len() == 0 {
        0
    } else {
        let before = accepted(w, ops.drop_last());
        if step(run(w, ops.drop_last()), ops.last()).is_ok() {
            before + 1
        } else {
            before
        }
    }
}

/// The first history is the beginning of the second.
pub open spec fn extends(later: Seq<crate::types::TransactionModel>, earlier: Seq<
    crate::types::TransactionModel,
>) -> bool {
    earlier.len() <= later.len() && later.take(earlier.len() as int) == earlier
}

/// An accepted request appends exactly one entry to the ledger, under the
/// next id, and leaves the entries before it as they were.
pub proof fn lemma_accepted_appends_one(w: WalletModel, op: Operation)
    requires
        step(w, op).is_ok(),
    ensures
        ({
            let next = step(w, op).unwrap();
            &&& next.history.len() == w.history.len() + 1
            &&& next.history.drop_last() == w.history
            &&& next.history.last().id == w.history.len() + 1
        }),
{
    let next = step(w, op).unwrap();
    assert(next.history.drop_last() =~= w.history);
}

/// A refused request changes nothing: neither the balances, nor the funds,
/// nor the ledger and with it the id that the next entry gets.
pub proof fn lemma_refused_changes_nothing(w: WalletModel, op: Operation)
    requires
        step(w, op).is_err(),
    ensures
        apply(w, op) == w,
{
}

/// Whatever is asked of a valid state, the state after it is valid: neither
/// balance is negative, every fund holds between nothing and its target, and
/// the ledger is numbered 1, 2, 3, ….
pub proof fn lemma_step_preserves_valid(w: WalletModel, op: Operation)
    requires
        w.valid(),
    ensures
        apply(w, op).valid(),
{
    match step(w, op) {
        Ok(next) => {
            lemma_accepted_appends_one(w, op);
            assert(numbered(next.history)) by {
                assert forall|i: int| 0 <= i < next.history.len() implies (
                #[trigger] next.history[i]).id == i + 1 by {
                    if i < w.history.len() {
                        assert(next.history[i] == next.history.drop_last()[i]);
                    } else {
                        assert(next.history[i] == next.history.last());
                    }
                }
            }
            assert(0 <= next.balance);
            assert(0 <= next.invested_amount);
            assert forall|id: Seq<char>| #[trigger]
                next.funds.dom().contains(id) implies next.funds[id].valid() && next.funds[id].id
                == id by {
                if w.funds.dom().contains(id) {
                    assert(w.funds[id].valid());
                }
            }
        },
        Err(_) => {},
    }
}

/// Whatever run of requests is made from a valid state, the state after it
/// is valid.
pub proof fn lemma_run_preserves_valid(w: WalletModel, ops: Seq<Operation>)
    requires
        w.valid(),
    ensures
        run(w, ops).valid(),
    decreases ops.len(),
{
    if ops.len() > 0 {
        lemma_run_preserves_valid(w, ops.drop_last());
        lemma_step_preserves_valid(run(w, ops.drop_last()), ops.last());
    }
}

/// After a run of requests the ledger holds what it held before, unchanged,
/// followed by one entry for each accepted request and none for a refused
/// one.
pub proof fn lemma_run_appends_accepted(w: WalletModel, ops: Seq<Operation>)
    ensures
        extends(run(w, ops).history, w.history),
        run(w, ops).history.len() == w.history.len() + accepted(w, ops),
    decreases ops.len(),
{
    if ops.len() == 0 {
        assert(w.history.take(w.history.len() as int) =~= w.history);
    } else {
        let before = run(w, ops.drop_last());
        lemma_run_appends_accepted(w, ops.drop_last());
        if step(before, ops.last()).is_ok() {
            lemma_accepted_appends_one(before, ops.last());
            let after = run(w, ops).history;
            assert(after.drop_last() == before.history);
            assert(after.take(w.history.len() as int) =~= before.history.take(
                w.history.len() as int,
            ));
        }
    }
}

/// After any run of requests from a valid state, the entry at each place of
/// the ledger has the number of that place, counted from 1.
pub proof fn lemma_run_ids_sequential(w: WalletModel, ops: Seq<Operation>, i: int)
    requires
        w.valid(),
        0 <= i < run(w, ops).history.len(),
    ensures
        run(w, ops).history[i].id == i + 1,
{
    lemma_run_preserves_valid(w, ops);
}

/// A fund that is created and released at once leaves the available balance
/// and the funds as they were before it was created, and two entries more in
/// the ledger.
pub proof fn lemma_create_then_release(
    w: WalletModel,
    caller: Seq<char>,
    id: Seq<char>,
    target_amount: int,
    procedure_name: Seq<char>,
    created_at: nat,
    released_at: nat,
)
    requires
        w.create_fund(caller, id, target_amount, procedure_name, created_at).is_ok(),
    ensures
        ({
            let created = w.create_fund(
                caller,
                id,
                target_amount,
                procedure_name,
                created_at,
            ).unwrap();
            let released = created.release_fund(caller, id, released_at);
            &&& released.is_ok()
            &&& released.unwrap().balance == w.balance
            &&& released.unwrap().invested_amount == w.invested_amount
            &&& !released.unwrap().funds.dom().contains(id)
            &&& released.unwrap().funds == w.funds
            &&& released.unwrap().history.len() == w.history.len() + 2
        }),
{
    let created = w.create_fund(caller, id, target_amount, procedure_name, created_at).unwrap();
    let released = created.release_fund(caller, id, released_at).unwrap();
    assert(released.funds =~= w.funds);
}

/// A deposit of `d` followed by a payment of `p`, no more than `d`, to a
/// destination that the allow-list approves, both by the owner, are both
/// accepted; they leave the available balance higher by `d - p` and two
/// entries more in the ledger.
pub proof fn lemma_deposit_then_pay(
    w: WalletModel,
    destination: Seq<char>,
    d: int,
    p: int,
    deposited_at: nat,
    paid_at: nat,
)
    requires
        w.valid(),
        0 < p <= d,
    ensures
        ({
            let deposited = w.deposit(w.user, d, deposited_at);
            let paid = deposited.unwrap().pay(w.user, destination, p, true, paid_at);
            &&& deposited.is_ok()
            &&& paid.is_ok()
            &&& paid.unwrap().balance == w.balance + d - p
            &&& w.balance == 0 ==> paid.unwrap().balance == d - p
            &&& paid.unwrap().history.len() == w.history.len() + 2
            &&& paid.unwrap().history.take(w.history.len() as int) == w.history
        }),
{
    let deposited = w.deposit(w.user, d, deposited_at).unwrap();
    let paid = deposited.pay(w.user, destination, p, true, paid_at).unwrap();
    assert(paid.history.take(w.history.len() as int) =~= w.history);
}

/// A payment to a destination that the allow-list does not approve is never
/// accepted, and so changes nothing. Where the owner asks for it with a
/// positive amount, it is refused with `DestinationNotAllowed`, whatever the
/// balance is: the allow-list is asked before the balance.
pub proof fn lemma_unapproved_destination_refused(
    w: WalletModel,
    caller: Seq<char>,
    destination: Seq<char>,
    amount: int,
    timestamp: nat,
)
    ensures
        w.pay(caller, destination, amount, false, timestamp).is_err(),
        apply(
            w,
            Operation::Pay { caller, destination, amount, is_provider: false, timestamp },
        ) == w,
        caller == w.user && 0 < amount ==> w.pay(caller, destination, amount, false, timestamp)
            == Err::<WalletModel, HealthAidWalletError>(HealthAidWalletError::DestinationNotAllowed),
{
}

/// A swap that yields no less than the minimum asked for, and nothing
/// negative, is credited in full, whatever was handed in: the available
/// balance grows by the yield, and the entry records the yield.
pub proof fn lemma_swap_credits_the_yield(
    w: WalletModel,
    token: Seq<char>,
    amount: int,
    min_usdc_out: int,
    yielded: int,
    timestamp: nat,
)
    requires
        token != w.usdc_token,
        0 < amount,
    ensures
        ({
            let r = w.deposit_with_swap(
                w.user,
                token,
                amount,
                min_usdc_out,
                Some(yielded),
                timestamp,
            );
            &&& yielded < min_usdc_out <==> r == Err::<WalletModel, HealthAidWalletError>(
                HealthAidWalletError::SwapFailed,
            )
            &&& r.is_ok() <==> min_usdc_out <= yielded && 0 <= yielded
            &&& r.is_ok() ==> r.unwrap().balance == w.balance + yielded
                && r.unwrap().history.last().amount == yielded
                && r.unwrap().history.len() == w.history.len() + 1
        }),
{
}

/// A request to save into a fund that holds its target is refused with
/// `FundTargetReached`, where nothing else is wrong with it.
pub proof fn lemma_full_fund_takes_nothing(
    w: WalletModel,
    id: Seq<char>,
    amount: int,
    timestamp: nat,
)
    requires
        w.valid(),
        w.funds.dom().contains(id),
        w.funds[id].current_amount == w.funds[id].target_amount,
        0 < amount <= w.balance,
    ensures
        w.save_fund(w.user, id, amount, timestamp) == Err::<WalletModel, HealthAidWalletError>(
            HealthAidWalletError::FundTargetReached,
        ),
{
}

} // verus!
