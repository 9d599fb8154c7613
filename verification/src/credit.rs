//! Credit wallets: credits are added, tokens of language models are paid
//! for, and every movement is kept and can be listed on a bill.
use std::collections::VecDeque;
use vstd::prelude::*;
use crate::credits::{
    Credits, exact_diff, exact_sum, exact_when_it_fits, fits, less_value, minus, plus,
    product_of, two_decimals, two_places, times, zero,
};
use crate::jwt::utc_now_timestamp;
use crate::text::{i32_text, int_text, str_eq};

pub use crate::models::User;

verus! {

/// What a report's generation cost: the tokens, their price, the API that
/// made them, and when the bill was made (seconds since the Unix epoch).
#[derive(Debug, Clone)]
pub struct ReportBill {
    pub report_id: String,
    pub tokens_used: i32,
    pub total_cost: Credits,
    pub api_type: String,
    pub created_at: i64,
}

/// A movement of a wallet: credits added, or a report paid for.
#[derive(Debug, Clone)]
pub enum WalletTransaction {
    Credit { description: String, amount: Credits },
    Report(ReportBill),
}

/// A balance of credits and the movements that made it, oldest first.
#[derive(Debug, Clone)]
pub struct Wallet {
    pub balance: Credits,
    pub transactions: VecDeque<WalletTransaction>,
}

/// A user as the database stores it with its wallet.
#[derive(Debug, Clone)]
pub struct SurrealDBUser {
    pub id: String,
    pub balance: String,
    pub transactions: Vec<WalletTransaction>,
}

/// A user with a wallet.
#[derive(Debug, Clone)]
pub struct UserWithWallet {
    pub user: User,
    pub wallet: Wallet,
}

/// What a token costs with each API, in credits: 2.5 with OpenAI, 2.2 with
/// Anthropic, 2.0 with Google, 1.8 with Azure, nothing with any other.
pub open spec fn token_rate(api_type: Seq<char>) -> Credits {
    if api_type == "OpenAI"@ {
        Credits { mantissa: 25, scale: 1 }
    } else if api_type == "Anthropic"@ {
        Credits { mantissa: 22, scale: 1 }
    } else if api_type == "Google"@ {
        Credits { mantissa: 20, scale: 1 }
    } else if api_type == "Azure"@ {
        Credits { mantissa: 18, scale: 1 }
    } else {
        zero()
    }
}

/// What `tokens` tokens cost with an API.
pub open spec fn token_cost(tokens: i32, api_type: Seq<char>) -> Credits {
    product_of(token_rate(api_type), Credits { mantissa: tokens as i128, scale: 0 })
}

/// `c` is worth `a` minus `b`.
pub open spec fn is_difference(c: Credits, a: Credits, b: Credits) -> bool {
    exact_when_it_fits(c, exact_diff(a, b))
}

/// `c` is worth `a` plus `b`.
pub open spec fn is_sum(c: Credits, a: Credits, b: Credits) -> bool {
    exact_when_it_fits(c, exact_sum(a, b))
}

/// The line that closes each part of a bill.
pub open spec fn bill_rule() -> Seq<char> {
    "---------------------\n"@
}

/// The line of a bill for one movement.
pub open spec fn bill_line(t: WalletTransaction) -> Seq<char> {
    match t {
        WalletTransaction::Report(bill) => bill.api_type@ + " Token Generation: "@ + int_text(
            bill.tokens_used as int,
        ) + " tokens generated, cost: "@ + two_decimals(bill.total_cost.mantissa, bill.total_cost.scale)
            + " credits, API: "@ + bill.api_type@ + "\n"@,
        WalletTransaction::Credit { amount, .. } => "Credit Addition: "@ + two_decimals(
            amount.mantissa,
            amount.scale,
        ) + " credits added\n"@,
    }
}

/// The lines of a bill for the movements, in order.
pub open spec fn bill_lines(ts: Seq<WalletTransaction>) -> Seq<char>
    decreases ts.len(),
{
    if ts.len() == 0 {
        seq![]
    } else {
        bill_lines(ts.drop_last()) + bill_line(ts.last())
    }
}

/// The bill of a wallet: a heading, one line for each movement, and the
/// balance.
pub open spec fn wallet_bill(balance: Credits, ts: Seq<WalletTransaction>) -> Seq<char> {
    bill_rule() + "Wallet Bill:\n"@ + bill_rule() + bill_lines(ts) + bill_rule()
        + "Total remaining credits: "@ + two_decimals(balance.mantissa, balance.scale) + "\n"@
        + bill_rule()
}

/// What a token costs with an API.
fn rate_of(api_type: &str) -> (r: Credits)
    ensures
        r == token_rate(api_type@),
{
    if str_eq(api_type, "OpenAI") {
        Credits { mantissa: 25, scale: 1 }
    } else if str_eq(api_type, "Anthropic") {
        Credits { mantissa: 22, scale: 1 }
    } else if str_eq(api_type, "Google") {
        Credits { mantissa: 20, scale: 1 }
    } else if str_eq(api_type, "Azure") {
        Credits { mantissa: 18, scale: 1 }
    } else {
        Credits { mantissa: 0, scale: 0 }
    }
}

/// The line of a bill for one movement.
fn bill_line_of(t: &WalletTransaction) -> (s: String)
    requires
        t matches WalletTransaction::Report(b) ==> b.total_cost.wf(),
        t matches WalletTransaction::Credit { amount, .. } ==> amount.wf(),
    ensures
        s@ == bill_line(*t),
{
    match t {
        WalletTransaction::Report(bill) => {
            let mut s = bill.api_type.clone();
            s.append(" Token Generation: ");
            s.append(i32_text(bill.tokens_used).as_str());
            s.append(" tokens generated, cost: ");
            s.append(two_places(bill.total_cost).as_str());
            s.append(" credits, API: ");
            s.append(bill.api_type.as_str());
            s.append("\n");
            s
        },
        WalletTransaction::Credit { amount, .. } => {
            let mut s = String::from_str("Credit Addition: ");
            s.append(two_places(*amount).as_str());
            s.append(" credits added\n");
            s
        },
    }
}

impl Wallet {
    /// Every amount the wallet holds is a decimal number within bounds.
    pub open spec fn wf(&self) -> bool {
        &&& self.balance.wf()
        &&& forall|i: int| 0 <= i < self.transactions@.len() ==> amounts_wf(#[trigger] self.transactions@[i])
    }

    /// An empty wallet holding `initial_balance`.
    pub fn new(initial_balance: Credits) -> (w: Wallet)
        requires
            initial_balance.wf(),
        ensures
            w.wf(),
            w.balance == initial_balance,
            w.transactions@.len() == 0,
    {
        Wallet { balance: initial_balance, transactions: VecDeque::new() }
    }

    /// Adds credits to the wallet, and keeps the movement.
    pub fn add_credits(&mut self, amount: Credits)
        requires
            old(self).wf(),
            amount.wf(),
            fits(exact_sum(old(self).balance, amount).0, exact_sum(old(self).balance, amount).1),
        ensures
            final(self).wf(),
            is_sum(final(self).balance, old(self).balance, amount),
            final(self).transactions@.len() == old(self).transactions@.len() + 1,
            final(self).transactions@.drop_last() == old(self).transactions@,
            final(self).transactions@.last() matches WalletTransaction::Credit { description, amount: a }
                && description@ == "Credit Addition"@ && a == amount,
    {
        self.balance = plus(self.balance, amount);
        self.transactions.push_back(
            WalletTransaction::Credit { description: String::from_str("Credit Addition"), amount },
        );
        assert(self.transactions@.drop_last() =~= old(self).transactions@);
        assert forall|i: int| 0 <= i < self.transactions@.len() implies amounts_wf(
            #[trigger] self.transactions@[i],
        ) by {
            if i < old(self).transactions@.len() {
                assert(self.transactions@[i] == old(self).transactions@[i]);
            }
        }
    }

    /// Pays for `tokens` tokens of the API `api_type` on report `report_id`:
    /// the cost leaves the balance, the bill is kept, and the cost is
    /// returned. The balance must cover the cost.
    pub fn use_tokens(&mut self, tokens: i32, api_type: &str, report_id: &str) -> (cost: Credits)
        requires
            old(self).wf(),
            !less_value(old(self).balance, token_cost(tokens, api_type@)),
            fits(
                exact_diff(old(self).balance, token_cost(tokens, api_type@)).0,
                exact_diff(old(self).balance, token_cost(tokens, api_type@)).1,
            ),
        ensures
            cost == token_cost(tokens, api_type@),
            final(self).wf(),
            is_difference(final(self).balance, old(self).balance, cost),
            final(self).transactions@.len() == old(self).transactions@.len() + 1,
            final(self).transactions@.drop_last() == old(self).transactions@,
            final(self).transactions@.last() matches WalletTransaction::Report(bill) && bill.report_id@
                == report_id@ && bill.tokens_used == tokens && bill.total_cost == cost
                && bill.api_type@ == api_type@,
    {
        let rate = rate_of(api_type);
        let count = Credits { mantissa: tokens as i128, scale: 0 };
        assert(-2147483648 * 25 <= rate.mantissa * count.mantissa <= 2147483647 * 25) by (nonlinear_arith)
            requires
                0 <= rate.mantissa <= 25,
                -2147483648 <= count.mantissa <= 2147483647,
        ;
        let total_cost = times(rate, count);
        self.balance = minus(self.balance, total_cost);
        let bill = ReportBill {
            report_id: String::from_str(report_id),
            tokens_used: tokens,
            total_cost,
            api_type: String::from_str(api_type),
            created_at: utc_now_timestamp(),
        };
        self.transactions.push_back(WalletTransaction::Report(bill));
        assert(self.transactions@.drop_last() =~= old(self).transactions@);
        assert(total_cost.wf());
        assert forall|i: int| 0 <= i < self.transactions@.len() implies amounts_wf(
            #[trigger] self.transactions@[i],
        ) by {
            if i < old(self).transactions@.len() {
                assert(self.transactions@[i] == old(self).transactions@[i]);
            }
        }
        total_cost
    }

    /// The bill of the wallet: every movement, then the balance.
    pub fn generate_wallet_bill(&self) -> (bill: String)
        requires
            self.wf(),
        ensures
            bill@ == wallet_bill(self.balance, self.transactions@),
    {
        let mut lines = String::new();
        let mut i: usize = 0;
        while i < self.transactions.len()
            invariant
                self.wf(),
                i <= self.transactions.len(),
                lines@ == bill_lines(self.transactions@.take(i as int)),
            decreases self.transactions.len() - i,
        {
            assert(self.transactions@.take(i + 1).drop_last() == self.transactions@.take(i as int));
            assert(amounts_wf(self.transactions@[i as int]));
            let line = bill_line_of(&self.transactions[i]);
            lines.append(line.as_str());
            i = i + 1;
        }
        assert(self.transactions@.take(self.transactions.len() as int) == self.transactions@);
        let mut out = String::from_str("---------------------\n");
        out.append("Wallet Bill:\n");
        out.append("---------------------\n");
        out.append(lines.as_str());
        out.append("---------------------\n");
        out.append("Total remaining credits: ");
        out.append(two_places(self.balance).as_str());
        out.append("\n");
        out.append("---------------------\n");
        out
    }
}

/// The amounts a movement holds are decimal numbers within bounds.
pub open spec fn amounts_wf(t: WalletTransaction) -> bool {
    match t {
        WalletTransaction::Report(b) => b.total_cost.wf(),
        WalletTransaction::Credit { amount, .. } => amount.wf(),
    }
}

impl SurrealDBUser {
    /// The stored form of a user with the given movements: the placeholder
    /// identifier `default_id` and a balance of `0`.
    pub fn from_transactions(transactions: Vec<WalletTransaction>) -> (u: SurrealDBUser)
        ensures
            u.id@ == "default_id"@,
            u.balance@ == "0"@,
            u.transactions@ == transactions@,
    {
        SurrealDBUser {
            id: String::from_str("default_id"),
            balance: String::from_str("0"),
            transactions,
        }
    }
}

impl UserWithWallet {
    /// A user with a wallet.
    pub fn new(user: User, wallet: Wallet) -> (u: UserWithWallet)
        ensures
            u.user == user,
            u.wallet == wallet,
    {
        UserWithWallet { user, wallet }
    }

    /// Adds credits to the user's wallet.
    pub fn add_credits(&mut self, amount: Credits)
        requires
            old(self).wallet.wf(),
            amount.wf(),
            fits(
                exact_sum(old(self).wallet.balance, amount).0,
                exact_sum(old(self).wallet.balance, amount).1,
            ),
        ensures
            final(self).user == old(self).user,
            final(self).wallet.wf(),
            is_sum(final(self).wallet.balance, old(self).wallet.balance, amount),
            final(self).wallet.transactions@.drop_last() == old(self).wallet.transactions@,
            final(self).wallet.transactions@.len() == old(self).wallet.transactions@.len() + 1,
            final(self).wallet.transactions@.last() matches WalletTransaction::Credit { description, amount: a }
                && description@ == "Credit Addition"@ && a == amount,
    {
        self.wallet.add_credits(amount);
    }

    /// Pays for tokens from the user's wallet.
    pub fn use_tokens(&mut self, tokens: i32, api_type: &str, report_id: &str) -> (cost: Credits)
        requires
            old(self).wallet.wf(),
            !less_value(old(self).wallet.balance, token_cost(tokens, api_type@)),
            fits(
                exact_diff(old(self).wallet.balance, token_cost(tokens, api_type@)).0,
                exact_diff(old(self).wallet.balance, token_cost(tokens, api_type@)).1,
            ),
        ensures
            cost == token_cost(tokens, api_type@),
            final(self).user == old(self).user,
            final(self).wallet.wf(),
            is_difference(final(self).wallet.balance, old(self).wallet.balance, cost),
            final(self).wallet.transactions@.drop_last() == old(self).wallet.transactions@,
            final(self).wallet.transactions@.len() == old(self).wallet.transactions@.len() + 1,
            final(self).wallet.transactions@.last() matches WalletTransaction::Report(bill)
                && bill.report_id@ == report_id@ && bill.tokens_used == tokens && bill.total_cost == cost
                && bill.api_type@ == api_type@,
    {
        self.wallet.use_tokens(tokens, api_type, report_id)
    }
}

/// `c` is worth `d` divided by ten to the power `s`, for a `d` given over
/// the scales of `a` and `b` together.
pub open spec fn worth_over(c: Credits, d: int, a: Credits, b: Credits) -> bool {
    c.mantissa * crate::credits::pow10((a.scale + b.scale) as nat) == d * crate::credits::pow10(
        c.scale as nat,
    )
}

/// Brings a number held at the scale `s`, which is at least `a`'s and `b`'s,
/// over the scales of `a` and `b` together.
proof fn lemma_over_both(c: Credits, x: int, y: int, a: Credits, b: Credits)
    requires
        a.scale <= 28,
        b.scale <= 28,
        exact_when_it_fits(c, (x, crate::credits::max_scale(a, b))),
        fits(x, crate::credits::max_scale(a, b)),
        x * crate::credits::pow10((a.scale + b.scale) as nat) == y * crate::credits::pow10(
            crate::credits::max_scale(a, b),
        ),
    ensures
        worth_over(c, y, a, b),
{
    let s = crate::credits::max_scale(a, b);
    let ps = crate::credits::pow10(s);
    let pab = crate::credits::pow10((a.scale + b.scale) as nat);
    let pc = crate::credits::pow10(c.scale as nat);
    crate::credits::lemma_pow10_adds(s, 0);
    assert(c.mantissa * ps == x * pc);
    assert(c.mantissa * pab == y * pc) by (nonlinear_arith)
        requires
            c.mantissa * ps == x * pc,
            x * pab == y * ps,
            ps > 0,
    ;
}

/// Paying for tokens lowers the balance by exactly their cost, and leaves it
/// no smaller than zero when it covered the cost: over the scales of the old
/// balance and the cost together, the new balance is the old one minus the
/// cost.
pub proof fn lemma_payment_value(new_balance: Credits, balance: Credits, cost: Credits)
    requires
        balance.wf(),
        cost.wf(),
        fits(exact_diff(balance, cost).0, exact_diff(balance, cost).1),
        is_difference(new_balance, balance, cost),
        !less_value(balance, cost),
    ensures
        worth_over(
            new_balance,
            balance.mantissa * crate::credits::pow10(cost.scale as nat) - cost.mantissa
                * crate::credits::pow10(balance.scale as nat),
            balance,
            cost,
        ),
        new_balance.mantissa >= 0,
{
    let s = crate::credits::max_scale(balance, cost);
    let ka = (s - balance.scale) as nat;
    let kb = (s - cost.scale) as nat;
    crate::credits::lemma_pow10_adds(balance.scale as nat, ka);
    crate::credits::lemma_pow10_adds(cost.scale as nat, kb);
    crate::credits::lemma_pow10_adds(balance.scale as nat, cost.scale as nat);
    crate::credits::lemma_pow10_adds(ka, 0);
    crate::credits::lemma_pow10_adds(kb, 0);
    crate::credits::lemma_pow10_adds(new_balance.scale as nat, 0);
    crate::credits::lemma_pow10_adds((balance.scale + cost.scale) as nat, 0);
    let pa = crate::credits::pow10(balance.scale as nat);
    let pb = crate::credits::pow10(cost.scale as nat);
    let qa = crate::credits::pow10(ka);
    let qb = crate::credits::pow10(kb);
    let ps = crate::credits::pow10(s);
    let pab = crate::credits::pow10((balance.scale + cost.scale) as nat);
    let x = balance.mantissa * qa - cost.mantissa * qb;
    let y = balance.mantissa * pb - cost.mantissa * pa;
    assert(exact_diff(balance, cost) == (x, s));
    let bm = balance.mantissa as int;
    let cm = cost.mantissa as int;
    assert(bm * qa * pab == bm * pb * ps) by (nonlinear_arith)
        requires
            pa * qa == ps,
            pa * pb == pab,
    ;
    assert(cm * qb * pab == cm * pa * ps) by (nonlinear_arith)
        requires
            pb * qb == ps,
            pa * pb == pab,
    ;
    assert(x * pab == bm * qa * pab - cm * qb * pab) by (nonlinear_arith)
        requires
            x == bm * qa - cm * qb,
    ;
    assert(y * ps == bm * pb * ps - cm * pa * ps) by (nonlinear_arith)
        requires
            y == bm * pb - cm * pa,
    ;
    lemma_over_both(new_balance, x, y, balance, cost);
    assert(y >= 0);
    let pc = crate::credits::pow10(new_balance.scale as nat);
    assert(new_balance.mantissa >= 0) by (nonlinear_arith)
        requires
            new_balance.mantissa * pab == y * pc,
            y >= 0,
            pab > 0,
            pc > 0,
    ;
}

/// Adding credits raises the balance by exactly the amount: over the scales
/// of the old balance and the amount together, the new balance is their
/// sum.
pub proof fn lemma_credit_value(new_balance: Credits, balance: Credits, amount: Credits)
    requires
        balance.wf(),
        amount.wf(),
        fits(exact_sum(balance, amount).0, exact_sum(balance, amount).1),
        is_sum(new_balance, balance, amount),
    ensures
        worth_over(
            new_balance,
            balance.mantissa * crate::credits::pow10(amount.scale as nat) + amount.mantissa
                * crate::credits::pow10(balance.scale as nat),
            balance,
            amount,
        ),
{
    let s = crate::credits::max_scale(balance, amount);
    let ka = (s - balance.scale) as nat;
    let kb = (s - amount.scale) as nat;
    crate::credits::lemma_pow10_adds(balance.scale as nat, ka);
    crate::credits::lemma_pow10_adds(amount.scale as nat, kb);
    crate::credits::lemma_pow10_adds(balance.scale as nat, amount.scale as nat);
    let pa = crate::credits::pow10(balance.scale as nat);
    let pb = crate::credits::pow10(amount.scale as nat);
    let qa = crate::credits::pow10(ka);
    let qb = crate::credits::pow10(kb);
    let ps = crate::credits::pow10(s);
    let pab = crate::credits::pow10((balance.scale + amount.scale) as nat);
    let x = balance.mantissa * qa + amount.mantissa * qb;
    let y = balance.mantissa * pb + amount.mantissa * pa;
    assert(exact_sum(balance, amount) == (x, s));
    let bm = balance.mantissa as int;
    let cm = amount.mantissa as int;
    assert(bm * qa * pab == bm * pb * ps) by (nonlinear_arith)
        requires
            pa * qa == ps,
            pa * pb == pab,
    ;
    assert(cm * qb * pab == cm * pa * ps) by (nonlinear_arith)
        requires
            pb * qb == ps,
            pa * pb == pab,
    ;
    assert(x * pab == bm * qa * pab + cm * qb * pab) by (nonlinear_arith)
        requires
            x == bm * qa + cm * qb,
    ;
    assert(y * ps == bm * pb * ps + cm * pa * ps) by (nonlinear_arith)
        requires
            y == bm * pb + cm * pa,
    ;
    lemma_over_both(new_balance, x, y, balance, amount);
}

} // verus!
