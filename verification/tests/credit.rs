use finanalize::credit::{SurrealDBUser, UserWithWallet, Wallet, WalletTransaction};
use finanalize::credits::Credits;
use finanalize::models::User;
use rust_decimal::Decimal;

fn dec(c: Credits) -> Decimal {
    Decimal::from_i128_with_scale(c.mantissa, c.scale)
}

fn credits(d: Decimal) -> Credits {
    Credits { mantissa: d.mantissa(), scale: d.scale() }
}

#[test]
fn test_wallet_transactions() {
    let mut user = UserWithWallet {
        user: User {
            id: "user_123".to_string(),
            email: "user@example.com".to_string(),
            password: "password".to_string(),
        },
        wallet: Wallet::new(credits(Decimal::new(1000, 0))),
    };

    user.add_credits(credits(Decimal::new(500, 0)));

    let report_1 = user.use_tokens(20, "OpenAI", "report_1");
    let report_2 = user.use_tokens(30, "Anthropic", "report_1");
    let single_report = user.use_tokens(15, "Google", "report_2");

    let expected_balance = Decimal::new(1000, 0) + Decimal::new(500, 0)
        - dec(report_1) - dec(report_2) - dec(single_report);

    assert_eq!(dec(user.wallet.balance), expected_balance);

    let wallet_bill = user.wallet.generate_wallet_bill();
    println!("\nWallet Bill:\n{}", wallet_bill);
    assert!(wallet_bill.contains("Token Generation"));
    assert!(wallet_bill.contains("Total remaining credits"));
}

#[test]
fn token_prices_by_api() {
    let mut w = Wallet::new(Credits { mantissa: 1000, scale: 0 });
    assert_eq!(dec(w.use_tokens(10, "OpenAI", "r")), Decimal::new(25, 0));
    assert_eq!(dec(w.use_tokens(10, "Anthropic", "r")), Decimal::new(22, 0));
    assert_eq!(dec(w.use_tokens(10, "Google", "r")), Decimal::new(20, 0));
    assert_eq!(dec(w.use_tokens(10, "Azure", "r")), Decimal::new(18, 0));
    assert_eq!(dec(w.use_tokens(10, "Other", "r")), Decimal::ZERO);
    assert_eq!(dec(w.balance), Decimal::new(915, 0));
    assert_eq!(w.transactions.len(), 5);
}

#[test]
fn wallet_bill_lines() {
    let mut w = Wallet::new(Credits { mantissa: 100, scale: 0 });
    w.add_credits(Credits { mantissa: 55, scale: 1 });
    w.use_tokens(3, "Azure", "rep");
    let bill = w.generate_wallet_bill();
    assert_eq!(
        bill,
        "---------------------\nWallet Bill:\n---------------------\n\
         Credit Addition: 5.50 credits added\n\
         Azure Token Generation: 3 tokens generated, cost: 5.40 credits, API: Azure\n\
         ---------------------\nTotal remaining credits: 100.10\n---------------------\n"
    );
    match &w.transactions[1] {
        WalletTransaction::Report(b) => {
            assert_eq!(b.report_id, "rep");
            assert_eq!(b.tokens_used, 3);
        }
        _ => panic!("expected a report bill"),
    }
}

#[test]
fn stored_users_start_empty() {
    let u = SurrealDBUser::from_transactions(vec![]);
    assert_eq!(u.id, "default_id");
    assert_eq!(u.balance, "0");
    assert!(u.transactions.is_empty());
}

#[test]
fn bills_cut_amounts_to_two_decimals() {
    let mut w = Wallet::new(Credits { mantissa: 1999, scale: 3 });
    w.add_credits(Credits { mantissa: 7, scale: 3 });
    let bill = w.generate_wallet_bill();
    assert!(bill.contains("Credit Addition: 0.00 credits added\n"));
    assert!(bill.contains("Total remaining credits: 2.00\n"));
    let w = Wallet::new(Credits { mantissa: 1239, scale: 3 });
    assert!(w.generate_wallet_bill().contains("Total remaining credits: 1.23\n"));
}
