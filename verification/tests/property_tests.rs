use health_aid_wallet::currency::PriceFeed;
use health_aid_wallet::key_order::bytes_before;
use health_aid_wallet::key_order::key_before;
use health_aid_wallet::types::Fund;
use health_aid_wallet::types::HealthAidWalletError;
use health_aid_wallet::types::Transaction;
use health_aid_wallet::types::TransactionType;
use health_aid_wallet::wallet::HealthAidWallet;
use health_aid_wallet::wallet::VaultQuote;

const NOW: u64 = 1_700_000_000;

fn user() -> String {
    "GUSER".to_string()
}

fn new_wallet() -> HealthAidWallet {
    HealthAidWallet::new(
        user(),
        "CREGISTRY".to_string(),
        "CUSDC".to_string(),
        "CSOROSWAP".to_string(),
        "CDEFINDEX".to_string(),
        "CREFLECTOR".to_string(),
    )
}

fn par() -> Option<VaultQuote> {
    Some(VaultQuote { total_supply: 1000, total_managed_value: 1000 })
}

fn ids_are_sequential(wallet: &HealthAidWallet) -> bool {
    let history = wallet.get_history();
    history.len() as u64 == wallet.get_transaction_count()
        && history.iter().enumerate().all(|(i, t)| t.id == i as u64 + 1)
}

fn invariants_hold(wallet: &HealthAidWallet) -> bool {
    wallet.get_balance() >= 0
        && wallet.get_invested_amount() >= 0
        && wallet
            .get_all_funds()
            .iter()
            .all(|f| 0 <= f.current_amount && f.current_amount <= f.target_amount && f.target_amount > 0)
        && ids_are_sequential(wallet)
}

#[test]
fn test_scenario_deposit_fund_save_release() {
    let mut wallet = new_wallet();
    assert_eq!(wallet.get_balance(), 0);

    assert_eq!(wallet.deposit(&user(), 1000, 11), Ok(()));
    assert_eq!(wallet.get_balance(), 1000);
    assert_eq!(
        wallet.get_history(),
        vec![Transaction {
            id: 1,
            transaction_type: TransactionType::Deposit,
            amount: 1000,
            destination: None,
            fund_id: None,
            timestamp: 11,
            description: "USDC deposit".to_string(),
        }]
    );

    assert_eq!(wallet.create_fund(&user(), "f1".to_string(), 500, "Surgery".to_string(), 12), Ok(()));
    assert_eq!(
        wallet.get_fund(&"f1".to_string()),
        Ok(Fund {
            id: "f1".to_string(),
            target_amount: 500,
            current_amount: 0,
            procedure_name: "Surgery".to_string(),
        })
    );
    assert_eq!(wallet.get_balance(), 1000);
    assert_eq!(wallet.get_transaction_count(), 2);

    assert_eq!(wallet.save_fund(&user(), "f1".to_string(), 300, 13), Ok(()));
    assert_eq!(wallet.get_fund(&"f1".to_string()).unwrap().current_amount, 300);
    assert_eq!(wallet.get_balance(), 700);
    assert_eq!(wallet.get_transaction_count(), 3);

    assert_eq!(wallet.release_fund(&user(), "f1".to_string(), 14), Ok(()));
    assert_eq!(wallet.get_balance(), 1000);
    assert_eq!(wallet.get_fund(&"f1".to_string()), Err(HealthAidWalletError::FundNotFound));
    assert_eq!(wallet.get_all_funds(), vec![]);
    assert_eq!(wallet.get_transaction_count(), 4);

    let history = wallet.get_history();
    let kinds: Vec<TransactionType> = history.iter().map(|t| t.transaction_type).collect();
    assert_eq!(
        kinds,
        vec![
            TransactionType::Deposit,
            TransactionType::FundCreate,
            TransactionType::FundSave,
            TransactionType::FundRelease
        ]
    );
    let amounts: Vec<i128> = history.iter().map(|t| t.amount).collect();
    assert_eq!(amounts, vec![1000, 500, 300, 300]);
    // the entries of a released fund stay, and still name it
    assert_eq!(history[1].fund_id, Some("f1".to_string()));
    assert_eq!(history[2].fund_id, Some("f1".to_string()));
    assert_eq!(history[3].fund_id, Some("f1".to_string()));
    assert_eq!(history[3].description, "Fund released back to wallet");
    assert!(ids_are_sequential(&wallet));
}

#[test]
fn test_scenario_invest_all_then_redeem() {
    let mut wallet = new_wallet();
    wallet.deposit(&user(), 1000, NOW).unwrap();

    assert_eq!(wallet.invest(&user(), 0, Some(1000), NOW), Ok(()));
    assert_eq!(wallet.get_balance(), 0);
    assert_eq!(wallet.get_invested_amount(), 1000);

    assert_eq!(wallet.redeem(&user(), 400, par(), Some(400), NOW), Ok(()));
    assert_eq!(wallet.get_balance(), 400);
    assert_eq!(wallet.get_invested_amount(), 600);

    let history = wallet.get_history();
    assert_eq!(history[1].transaction_type, TransactionType::Invest);
    assert_eq!(history[1].amount, 1000);
    assert_eq!(history[2].transaction_type, TransactionType::Redeem);
    assert_eq!(history[2].amount, 400);
}

#[test]
fn test_scenario_save_into_full_fund() {
    let mut wallet = new_wallet();
    wallet.deposit(&user(), 1000, NOW).unwrap();
    wallet.create_fund(&user(), "f1".to_string(), 500, "Surgery".to_string(), NOW).unwrap();
    wallet.save_fund(&user(), "f1".to_string(), 500, NOW).unwrap();
    assert_eq!(wallet.get_fund(&"f1".to_string()).unwrap().current_amount, 500);
    let before = wallet.clone();

    let r = wallet.save_fund(&user(), "f1".to_string(), 1, NOW);
    assert_eq!(r, Err(HealthAidWalletError::FundTargetReached));
    assert_eq!(r.unwrap_err().code(), 1005);
    assert_eq!(wallet, before);
    assert_eq!(wallet.get_balance(), 500);
    assert_eq!(wallet.get_transaction_count(), 3);
}

#[test]
fn test_scenario_pay_to_unapproved_destination() {
    let mut wallet = new_wallet();
    wallet.deposit(&user(), 1000, NOW).unwrap();
    let before = wallet.clone();

    let r = wallet.pay(&user(), &"GSTRANGER".to_string(), 100, false, NOW);
    assert_eq!(r, Err(HealthAidWalletError::DestinationNotAllowed));
    assert_eq!(wallet.get_balance(), 1000);
    assert_eq!(wallet, before);

    // so it is where the balance would not suffice either
    let r = wallet.pay(&user(), &"GSTRANGER".to_string(), 5000, false, NOW);
    assert_eq!(r, Err(HealthAidWalletError::DestinationNotAllowed));
    assert_eq!(r.unwrap_err().code(), 1003);
    assert_eq!(wallet, before);
}

#[test]
fn test_deposit_then_pay() {
    for (d, p) in [(1000i128, 1i128), (1000, 999), (1000, 1000), (1, 1)] {
        let mut wallet = new_wallet();
        wallet.deposit(&user(), d, NOW).unwrap();
        wallet.pay(&user(), &"GPROVIDER".to_string(), p, true, NOW).unwrap();
        assert_eq!(wallet.get_balance(), d - p);
        assert_eq!(wallet.get_transaction_count(), 2);
        let history = wallet.get_history();
        assert_eq!(history[1].transaction_type, TransactionType::Payment);
        assert_eq!(history[1].destination, Some("GPROVIDER".to_string()));
        assert_eq!(history[1].description, "Payment to healthcare provider");
    }
}

#[test]
fn test_create_then_release_restores_balance() {
    let mut wallet = new_wallet();
    wallet.deposit(&user(), 750, NOW).unwrap();
    wallet.create_fund(&user(), "other".to_string(), 10, "Checkup".to_string(), NOW).unwrap();
    let funds_before = wallet.get_all_funds();

    wallet.create_fund(&user(), "f1".to_string(), 500, "Surgery".to_string(), NOW).unwrap();
    wallet.release_fund(&user(), "f1".to_string(), NOW).unwrap();

    assert_eq!(wallet.get_balance(), 750);
    assert_eq!(wallet.get_all_funds(), funds_before);
    assert_eq!(wallet.get_fund(&"f1".to_string()), Err(HealthAidWalletError::FundNotFound));
    let last = wallet.get_transaction(4).unwrap();
    assert_eq!(last.transaction_type, TransactionType::FundRelease);
    assert_eq!(last.amount, 0);
}

#[test]
fn test_rejected_operations_consume_no_id() {
    let mut wallet = new_wallet();
    let stranger = "GSTRANGER".to_string();
    wallet.deposit(&user(), 1000, NOW).unwrap();
    wallet.create_fund(&user(), "f1".to_string(), 500, "Surgery".to_string(), NOW).unwrap();
    let before = wallet.clone();

    assert_eq!(wallet.deposit(&user(), 0, NOW), Err(HealthAidWalletError::InvalidAmount));
    assert_eq!(wallet.deposit(&stranger, 5, NOW), Err(HealthAidWalletError::Unauthorized));
    assert_eq!(
        wallet.deposit_with_swap(&stranger, &"CTOKEN".to_string(), 5, 5, Some(5), NOW),
        Err(HealthAidWalletError::Unauthorized)
    );
    assert_eq!(
        wallet.deposit_with_swap(&user(), &"CTOKEN".to_string(), 5, 1, Some(0), NOW),
        Err(HealthAidWalletError::SwapFailed)
    );
    assert_eq!(
        wallet.deposit_with_swap(&user(), &"CTOKEN".to_string(), 5, -3, Some(-2), NOW),
        Err(HealthAidWalletError::InvalidAmount)
    );
    assert_eq!(wallet.pay(&stranger, &stranger, 5, true, NOW), Err(HealthAidWalletError::Unauthorized));
    assert_eq!(wallet.pay(&user(), &stranger, 0, true, NOW), Err(HealthAidWalletError::InvalidAmount));
    assert_eq!(wallet.pay(&user(), &stranger, 1001, true, NOW), Err(HealthAidWalletError::InsufficientBalance));
    // the allow-list is asked before the balance
    assert_eq!(wallet.pay(&user(), &stranger, 1001, false, NOW), Err(HealthAidWalletError::DestinationNotAllowed));
    assert_eq!(wallet.pay(&user(), &stranger, 0, false, NOW), Err(HealthAidWalletError::InvalidAmount));
    assert_eq!(wallet.pay(&stranger, &stranger, 1001, false, NOW), Err(HealthAidWalletError::Unauthorized));
    assert_eq!(wallet.invest(&stranger, 5, Some(5), NOW), Err(HealthAidWalletError::Unauthorized));
    assert_eq!(wallet.redeem(&stranger, 5, par(), Some(5), NOW), Err(HealthAidWalletError::Unauthorized));
    assert_eq!(wallet.redeem(&user(), 5, par(), Some(5), NOW), Err(HealthAidWalletError::InsufficientBalance));
    assert_eq!(
        wallet.create_fund(&stranger, "f2".to_string(), 5, "x".to_string(), NOW),
        Err(HealthAidWalletError::Unauthorized)
    );
    assert_eq!(
        wallet.create_fund(&user(), "f2".to_string(), 0, "x".to_string(), NOW),
        Err(HealthAidWalletError::InvalidAmount)
    );
    assert_eq!(
        wallet.create_fund(&user(), "f2".to_string(), -1, "x".to_string(), NOW),
        Err(HealthAidWalletError::InvalidAmount)
    );
    assert_eq!(
        wallet.create_fund(&user(), "f1".to_string(), 900, "Again".to_string(), NOW),
        Err(HealthAidWalletError::FundAlreadyExists)
    );
    assert_eq!(HealthAidWalletError::FundAlreadyExists.code(), 1013);
    assert_eq!(wallet.save_fund(&stranger, "f1".to_string(), 5, NOW), Err(HealthAidWalletError::Unauthorized));
    assert_eq!(wallet.save_fund(&user(), "f1".to_string(), 0, NOW), Err(HealthAidWalletError::InvalidAmount));
    assert_eq!(
        wallet.save_fund(&user(), "f1".to_string(), 1001, NOW),
        Err(HealthAidWalletError::InsufficientBalance)
    );
    assert_eq!(wallet.save_fund(&user(), "nope".to_string(), 5, NOW), Err(HealthAidWalletError::FundNotFound));
    assert_eq!(HealthAidWalletError::FundNotFound.code(), 1004);
    assert_eq!(wallet.release_fund(&stranger, "f1".to_string(), NOW), Err(HealthAidWalletError::Unauthorized));
    assert_eq!(wallet.release_fund(&user(), "nope".to_string(), NOW), Err(HealthAidWalletError::FundNotFound));

    assert_eq!(wallet, before);
    assert_eq!(wallet.get_transaction_count(), 2);

    wallet.deposit(&user(), 1, NOW).unwrap();
    assert_eq!(wallet.get_history()[2].id, 3);
    assert!(ids_are_sequential(&wallet));
}

#[test]
fn test_save_takes_no_more_than_the_fund_lacks() {
    let mut wallet = new_wallet();
    wallet.deposit(&user(), 1000, NOW).unwrap();
    wallet.create_fund(&user(), "f1".to_string(), 500, "Surgery".to_string(), NOW).unwrap();
    wallet.save_fund(&user(), "f1".to_string(), 450, NOW).unwrap();

    // 50 are lacking: a saving of 200 moves 50
    assert_eq!(wallet.save_fund(&user(), "f1".to_string(), 200, NOW), Ok(()));
    assert_eq!(wallet.get_fund(&"f1".to_string()).unwrap().current_amount, 500);
    assert_eq!(wallet.get_balance(), 500);
    let last = wallet.get_transaction(4).unwrap();
    assert_eq!(last.transaction_type, TransactionType::FundSave);
    assert_eq!(last.amount, 50);
    assert!(invariants_hold(&wallet));

    // the balance is held against the amount asked for
    let mut wallet = new_wallet();
    wallet.deposit(&user(), 100, NOW).unwrap();
    wallet.create_fund(&user(), "f1".to_string(), 50, "Surgery".to_string(), NOW).unwrap();
    assert_eq!(
        wallet.save_fund(&user(), "f1".to_string(), 101, NOW),
        Err(HealthAidWalletError::InsufficientBalance)
    );
    assert_eq!(wallet.save_fund(&user(), "f1".to_string(), 100, NOW), Ok(()));
    assert_eq!(wallet.get_balance(), 50);
}

#[test]
fn test_funds_are_listed_in_ascending_order_of_id() {
    let mut wallet = new_wallet();
    for id in ["knee", "eye", "heart", "e", "eyes", "Zebra", "\u{e9}t\u{e9}"] {
        wallet.create_fund(&user(), id.to_string(), 100, "p".to_string(), NOW).unwrap();
    }
    let ids: Vec<String> = wallet.get_all_funds().into_iter().map(|f| f.id).collect();
    assert_eq!(ids, vec!["Zebra", "e", "eye", "eyes", "heart", "knee", "\u{e9}t\u{e9}"]);

    wallet.release_fund(&user(), "eye".to_string(), NOW).unwrap();
    let ids: Vec<String> = wallet.get_all_funds().into_iter().map(|f| f.id).collect();
    assert_eq!(ids, vec!["Zebra", "e", "eyes", "heart", "knee", "\u{e9}t\u{e9}"]);
    assert_eq!(wallet.get_fund(&"eyes".to_string()).unwrap().id, "eyes");
    assert_eq!(wallet.get_fund(&"ey".to_string()), Err(HealthAidWalletError::FundNotFound));
}

#[test]
fn test_key_order() {
    assert!(key_before(&"a".to_string(), &"b".to_string()));
    assert!(!key_before(&"b".to_string(), &"a".to_string()));
    assert!(!key_before(&"a".to_string(), &"a".to_string()));
    assert!(key_before(&"".to_string(), &"a".to_string()));
    assert!(!key_before(&"".to_string(), &"".to_string()));
    assert!(key_before(&"ab".to_string(), &"abc".to_string()));
    assert!(!key_before(&"abc".to_string(), &"ab".to_string()));
    assert!(key_before(&"abc".to_string(), &"abd".to_string()));
    assert!(key_before(&"Z".to_string(), &"a".to_string()));
    assert!(bytes_before(&[1, 2], &[1, 3]));
    assert!(bytes_before(&[], &[0]));
    assert!(!bytes_before(&[255], &[0, 0]));
    assert!(!bytes_before(&[0], &[]));
}

#[test]
fn test_invariants_over_a_run() {
    let mut wallet = new_wallet();
    let provider = "GPROVIDER".to_string();
    let stranger = "GSTRANGER".to_string();
    let mut expected_count = 0u64;
    for round in 0..40i128 {
        let results = vec![
            wallet.deposit(&user(), 100 + round, NOW),
            wallet.deposit(&stranger, 100, NOW),
            wallet.create_fund(&user(), format!("f{}", round % 5), 120, "p".to_string(), NOW),
            wallet.save_fund(&user(), format!("f{}", round % 3), 70, NOW),
            wallet.invest(&user(), round % 7 * 10, Some(1), NOW),
            wallet.invest(&user(), 50, None, NOW),
            wallet.redeem(&user(), round % 4 * 15, par(), Some(1), NOW),
            wallet.pay(&user(), &provider, round * 3, round % 2 == 0, NOW),
            wallet.pay_from_vault(&user(), &provider, 5, true, Some(round), par(), Some(5), NOW),
            wallet.release_fund(&user(), format!("f{}", (round + 2) % 5), NOW),
            wallet.deposit_with_swap(&user(), &"CTOKEN".to_string(), 10, 9, Some(round - 20), NOW),
        ];
        expected_count += results.iter().filter(|r| r.is_ok()).count() as u64;
        assert!(invariants_hold(&wallet));
        assert_eq!(wallet.get_transaction_count(), expected_count);
    }
    assert!(expected_count > 100);
}

#[test]
fn test_transactions_by_type_keep_their_order() {
    let mut wallet = new_wallet();
    wallet.deposit(&user(), 10, 1).unwrap();
    wallet.invest(&user(), 5, Some(5), 2).unwrap();
    wallet.deposit(&user(), 20, 3).unwrap();
    wallet.deposit(&user(), 30, 4).unwrap();
    let deposits = wallet.get_transactions_by_type(TransactionType::Deposit);
    let ids: Vec<u64> = deposits.iter().map(|t| t.id).collect();
    assert_eq!(ids, vec![1, 3, 4]);
    let stamps: Vec<u64> = deposits.iter().map(|t| t.timestamp).collect();
    assert_eq!(stamps, vec![1, 3, 4]);
    assert_eq!(wallet.get_transactions_by_type(TransactionType::Payment), vec![]);
    assert_eq!(wallet.get_transaction(0), None);
    assert_eq!(wallet.get_transaction(5), None);
    assert_eq!(wallet.get_transaction(4).unwrap().amount, 30);
}

#[test]
fn test_views_without_an_oracle() {
    let mut wallet = new_wallet();
    wallet.deposit(&user(), 1000, NOW).unwrap();
    wallet.create_fund(&user(), "f1".to_string(), 500, "Surgery".to_string(), NOW).unwrap();
    let before = wallet.clone();
    let unavailable = Err(HealthAidWalletError::OracleUnavailable);

    assert_eq!(HealthAidWallet::get_usdc_to_brl_rate(1000, None), unavailable);
    assert_eq!(HealthAidWallet::get_brl_to_usdc_rate(1000, None), unavailable);
    assert_eq!(HealthAidWallet::get_exchange_rate(None), unavailable);
    assert_eq!(HealthAidWallet::get_price_feed(None), Err(HealthAidWalletError::OracleUnavailable));
    assert_eq!(wallet.get_balance_brl(None), unavailable);
    assert_eq!(wallet.get_invested_amount_brl(None), unavailable);
    assert_eq!(wallet.get_total_balance_brl(None), unavailable);
    assert_eq!(wallet.get_fund_amount_brl(&"f1".to_string(), None), unavailable);
    assert_eq!(wallet.get_fund_target_brl(&"f1".to_string(), None), unavailable);
    assert_eq!(wallet.get_transaction_amount_brl(1, None), Err(HealthAidWalletError::OracleUnavailable));
    assert_eq!(HealthAidWalletError::OracleUnavailable.code(), 1012);
    // what is not there is missing whatever the oracle says
    assert_eq!(wallet.get_fund_amount_brl(&"f2".to_string(), None), Err(HealthAidWalletError::FundNotFound));
    assert_eq!(wallet.get_fund_target_brl(&"f2".to_string(), None), Err(HealthAidWalletError::FundNotFound));
    assert_eq!(wallet.get_transaction_amount_brl(9, None), Ok(None));
    assert_eq!(wallet, before);
}

#[test]
fn test_conversion_rounds_toward_zero() {
    let feed = |price: i128| Some(PriceFeed { price, timestamp: NOW, confidence: 95 });
    assert_eq!(HealthAidWallet::get_brl_to_usdc_rate(7, feed(2)), Ok(3));
    assert_eq!(HealthAidWallet::get_brl_to_usdc_rate(-7, feed(2)), Ok(-3));
    assert_eq!(HealthAidWallet::get_brl_to_usdc_rate(0, feed(2)), Ok(0));
    assert_eq!(HealthAidWallet::get_brl_to_usdc_rate(i128::MIN, feed(1)), Ok(i128::MIN));
    assert_eq!(HealthAidWallet::get_brl_to_usdc_rate(7, feed(0)), Err(HealthAidWalletError::OracleUnavailable));
    assert_eq!(HealthAidWallet::get_brl_to_usdc_rate(7, feed(-2)), Err(HealthAidWalletError::OracleUnavailable));
    assert_eq!(HealthAidWallet::get_usdc_to_brl_rate(-3, feed(5)), Ok(-15));
    assert_eq!(HealthAidWallet::get_usdc_to_brl_rate(3, feed(0)), Ok(0));
    assert_eq!(HealthAidWallet::get_price_feed(feed(5)), Ok((5, NOW, 95)));
}

#[test]
fn test_swap_deposit_credits_what_the_swap_yielded() {
    let mut wallet = new_wallet();
    let token = "CTOKEN".to_string();
    assert_eq!(wallet.deposit_with_swap(&user(), &token, 1000, 900, Some(950), NOW), Ok(()));
    assert_eq!(wallet.get_balance(), 950);
    let entry = wallet.get_transaction(1).unwrap();
    assert_eq!(entry.transaction_type, TransactionType::TokenSwap);
    assert_eq!(entry.amount, 950);
    assert_eq!(entry.description, "Token swap deposit");
    // just at the minimum
    assert_eq!(wallet.deposit_with_swap(&user(), &token, 1000, 900, Some(900), NOW), Ok(()));
    assert_eq!(wallet.get_balance(), 1850);
    // just below it
    assert_eq!(
        wallet.deposit_with_swap(&user(), &token, 1000, 900, Some(899), NOW),
        Err(HealthAidWalletError::SwapFailed)
    );
    // a negative yield is no amount that can be credited
    assert_eq!(
        wallet.deposit_with_swap(&user(), &token, 1000, -5, Some(-1), NOW),
        Err(HealthAidWalletError::InvalidAmount)
    );
    // below the minimum it has failed, negative or not
    assert_eq!(
        wallet.deposit_with_swap(&user(), &token, 1000, -5, Some(-6), NOW),
        Err(HealthAidWalletError::SwapFailed)
    );
    assert_eq!(wallet.get_balance(), 1850);
    assert_eq!(wallet.get_transaction_count(), 2);
    // a yield of nothing that meets the minimum is credited and recorded
    assert_eq!(wallet.deposit_with_swap(&user(), &token, 1000, 0, Some(0), 77), Ok(()));
    assert_eq!(wallet.deposit_with_swap(&user(), &token, 1000, -5, Some(0), 78), Ok(()));
    assert_eq!(wallet.get_balance(), 1850);
    assert_eq!(wallet.get_transaction_count(), 4);
    let nothing = wallet.get_transaction(3).unwrap();
    assert_eq!(nothing.transaction_type, TransactionType::TokenSwap);
    assert_eq!(nothing.amount, 0);
    assert_eq!(nothing.timestamp, 77);
    // a swap that did not come about has failed
    assert_eq!(
        wallet.deposit_with_swap(&user(), &token, 1000, 0, None, NOW),
        Err(HealthAidWalletError::SwapFailed)
    );
    assert_eq!(wallet.get_balance(), 1850);
    // the stable asset is credited in full, whatever is said of a swap
    assert_eq!(wallet.deposit_with_swap(&user(), &"CUSDC".to_string(), 10, 900, None, NOW), Ok(()));
    assert_eq!(wallet.get_balance(), 1860);
    assert_eq!(wallet.get_transaction(5).unwrap().transaction_type, TransactionType::Deposit);
    // for the stable asset the amount handed in is what counts, not a reply
    assert_eq!(wallet.deposit_with_swap(&user(), &"CUSDC".to_string(), 10, 900, Some(-4), NOW), Ok(()));
    assert_eq!(wallet.get_balance(), 1870);
}

#[test]
fn test_plan_deposit_with_swap() {
    let wallet = new_wallet();
    let token = "CTOKEN".to_string();
    assert_eq!(
        wallet.plan_deposit_with_swap(&user(), &token, 1000, 900),
        Ok(Some(health_aid_wallet::wallet::SwapRequest {
            owner: "GUSER".to_string(),
            token_in: "CTOKEN".to_string(),
            token_out: "CUSDC".to_string(),
            amount_in: 1000,
            min_amount_out: 900,
        }))
    );
    assert_eq!(wallet.plan_deposit_with_swap(&user(), &"CUSDC".to_string(), 1000, 900), Ok(None));
    assert_eq!(
        wallet.plan_deposit_with_swap(&user(), &token, 0, 900),
        Err(HealthAidWalletError::InvalidAmount)
    );
    assert_eq!(
        wallet.plan_deposit_with_swap(&"GSTRANGER".to_string(), &token, 1000, 900),
        Err(HealthAidWalletError::Unauthorized)
    );
}

fn fund(id: &str, target_amount: i128, current_amount: i128) -> Fund {
    Fund { id: id.to_string(), target_amount, current_amount, procedure_name: "p".to_string() }
}

fn entry(id: u64, amount: i128) -> Transaction {
    Transaction {
        id,
        transaction_type: TransactionType::Deposit,
        amount,
        destination: None,
        fund_id: None,
        timestamp: NOW,
        description: "USDC deposit".to_string(),
    }
}

fn restore(
    balance: i128,
    invested: i128,
    funds: Vec<Fund>,
    entries: Vec<Transaction>,
    counter: u64,
) -> Option<HealthAidWallet> {
    HealthAidWallet::restore(
        user(),
        "CREGISTRY".to_string(),
        "CUSDC".to_string(),
        "CSOROSWAP".to_string(),
        "CDEFINDEX".to_string(),
        "CREFLECTOR".to_string(),
        balance,
        invested,
        &funds,
        entries,
        counter,
    )
}

#[test]
fn test_restore_round_trip() {
    let mut wallet = new_wallet();
    wallet.deposit(&user(), 1000, NOW).unwrap();
    wallet.create_fund(&user(), "knee".to_string(), 500, "Knee".to_string(), NOW).unwrap();
    wallet.create_fund(&user(), "eye".to_string(), 300, "Eye".to_string(), NOW).unwrap();
    wallet.save_fund(&user(), "knee".to_string(), 200, NOW).unwrap();
    wallet.invest(&user(), 100, Some(100), NOW).unwrap();

    // the funds may be handed over in any order
    let mut funds = wallet.get_all_funds();
    funds.reverse();
    let restored = HealthAidWallet::restore(
        wallet.get_user(),
        wallet.get_registry_address(),
        wallet.get_usdc_token(),
        wallet.get_soroswap_contract(),
        wallet.get_defindex_contract(),
        wallet.get_reflector_contract(),
        wallet.get_balance(),
        wallet.get_invested_amount(),
        &funds,
        wallet.get_history(),
        wallet.get_transaction_count(),
    );
    assert_eq!(restored, Some(wallet.clone()));
    assert_eq!(wallet.get_total_value(), 1000);
    assert!(wallet.can_deposit(i128::MAX - 1000));
    assert!(!wallet.can_deposit(i128::MAX - 999));
}

#[test]
fn test_restore_refuses_inconsistent_parts() {
    assert!(restore(0, 0, vec![], vec![], 0).is_some());
    assert!(restore(5, 7, vec![fund("a", 10, 10), fund("b", 1, 0)], vec![entry(1, 5), entry(2, 7)], 2).is_some());
    assert_eq!(restore(-1, 0, vec![], vec![], 0), None);
    assert_eq!(restore(0, -1, vec![], vec![], 0), None);
    assert_eq!(restore(0, 0, vec![fund("a", 10, 11)], vec![], 0), None);
    assert_eq!(restore(0, 0, vec![fund("a", 10, -1)], vec![], 0), None);
    assert_eq!(restore(0, 0, vec![fund("a", 0, 0)], vec![], 0), None);
    assert_eq!(restore(0, 0, vec![fund("a", 10, 1), fund("b", 10, 1), fund("a", 20, 2)], vec![], 0), None);
    assert_eq!(restore(0, 0, vec![], vec![entry(1, 5)], 0), None);
    assert_eq!(restore(0, 0, vec![], vec![entry(1, 5)], 2), None);
    assert_eq!(restore(0, 0, vec![], vec![entry(2, 5)], 1), None);
    assert_eq!(restore(0, 0, vec![], vec![entry(1, 5), entry(3, 5)], 2), None);
    assert_eq!(restore(i128::MAX, 1, vec![], vec![], 0), None);
    assert_eq!(restore(i128::MAX - 1, 0, vec![fund("a", 10, 2)], vec![], 0), None);
    assert_eq!(restore(0, 0, vec![fund("a", i128::MAX, i128::MAX), fund("b", 1, 1)], vec![], 0), None);
    assert!(restore(i128::MAX - 2, 1, vec![fund("a", 10, 1)], vec![], 0).is_some());
}

#[test]
fn test_is_convertible() {
    let feed = |price: i128| Some(PriceFeed { price, timestamp: NOW, confidence: 95 });
    assert!(health_aid_wallet::currency::is_convertible(i128::MAX, None));
    assert!(health_aid_wallet::currency::is_convertible(i128::MAX, feed(1)));
    assert!(!health_aid_wallet::currency::is_convertible(i128::MAX, feed(2)));
    assert!(!health_aid_wallet::currency::is_convertible(i128::MIN, feed(-1)));
    assert!(health_aid_wallet::currency::is_convertible(1000, feed(5)));
}

#[test]
fn test_plan_pay() {
    let mut wallet = new_wallet();
    let provider = "GPROVIDER".to_string();
    wallet.deposit(&user(), 1000, NOW).unwrap();
    assert_eq!(
        wallet.plan_pay(&user(), &provider, 400, true),
        Ok(health_aid_wallet::wallet::AssetTransfer { destination: "GPROVIDER".to_string(), amount: 400 })
    );
    assert_eq!(wallet.plan_pay(&user(), &provider, 1000, true).unwrap().amount, 1000);
    assert_eq!(wallet.plan_pay(&user(), &provider, 1001, true), Err(HealthAidWalletError::InsufficientBalance));
    assert_eq!(wallet.plan_pay(&user(), &provider, 0, true), Err(HealthAidWalletError::InvalidAmount));
    assert_eq!(wallet.plan_pay(&user(), &provider, 400, false), Err(HealthAidWalletError::DestinationNotAllowed));
    // the allow-list is asked before the balance
    assert_eq!(wallet.plan_pay(&user(), &provider, 1001, false), Err(HealthAidWalletError::DestinationNotAllowed));
    assert_eq!(wallet.plan_pay(&user(), &provider, -1, false), Err(HealthAidWalletError::InvalidAmount));
    assert_eq!(wallet.plan_pay(&provider, &provider, 400, true), Err(HealthAidWalletError::Unauthorized));
    assert_eq!(wallet.get_balance(), 1000);
}
