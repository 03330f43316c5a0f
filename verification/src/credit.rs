//! Bilateral credit: a credit line between two agents.
//!
//! A positive balance is owed by the counterparty, a negative one is owed to
//! it.
use crate::twin::Twin;
use crate::types::Did;
use vstd::prelude::*;

verus! {

/// A bilateral credit relationship between two agents.
#[derive(Debug, PartialEq, Eq)]
pub struct BilateralCredit {
    /// The counterparty.
    pub counterparty: Did,
    /// Positive when the counterparty owes me, negative when I owe it.
    pub balance: i64,
    /// How much I let the counterparty owe me.
    pub credit_limit: u64,
    /// How much I let myself owe the counterparty.
    pub debt_limit: u64,
    /// When the relationship was established.
    pub established_at: u64,
    /// When the last transaction took place.
    pub last_activity: u64,
    /// The total of all transactions, in absolute value.
    pub total_volume: u64,
}

/// The mathematical form of [`BilateralCredit`].
#[verifier::ext_equal]
pub struct BilateralCreditView {
    pub counterparty: Seq<char>,
    pub balance: i64,
    pub credit_limit: u64,
    pub debt_limit: u64,
    pub established_at: u64,
    pub last_activity: u64,
    pub total_volume: u64,
}

impl DeepView for BilateralCredit {
    type V = BilateralCreditView;

    open spec fn deep_view(&self) -> BilateralCreditView {
        BilateralCreditView {
            counterparty: self.counterparty.deep_view(),
            balance: self.balance.deep_view(),
            credit_limit: self.credit_limit.deep_view(),
            debt_limit: self.debt_limit.deep_view(),
            established_at: self.established_at.deep_view(),
            last_activity: self.last_activity.deep_view(),
            total_volume: self.total_volume.deep_view(),
        }
    }
}

impl Twin for BilateralCredit {
    fn twin(&self) -> (r: Self) {
        BilateralCredit {
            counterparty: self.counterparty.twin(),
            balance: self.balance.twin(),
            credit_limit: self.credit_limit.twin(),
            debt_limit: self.debt_limit.twin(),
            established_at: self.established_at.twin(),
            last_activity: self.last_activity.twin(),
            total_volume: self.total_volume.twin(),
        }
    }
}

impl Clone for BilateralCredit {
    fn clone(&self) -> (r: Self)
        ensures
            r.deep_view() == self.deep_view(),
    {
        self.twin()
    }
}

/// The absolute value.
pub open spec fn magnitude(n: int) -> int {
    if n < 0 {
        -n
    } else {
        n
    }
}

/// The part of a number that a `u64` can show.
pub open spec fn clamped(n: int) -> u64 {
    if n < 0 {
        0
    } else if n > u64::MAX {
        u64::MAX
    } else {
        n as u64
    }
}

/// The absolute value of a signed amount.
pub fn magnitude_of(n: i64) -> (r: u64)
    ensures
        r == magnitude(n as int),
{
    if n < 0 {
        let shifted: i64 = -(n + 1);
        (shifted as u64) + 1
    } else {
        n as u64
    }
}

impl BilateralCreditView {
    /// Whether `amount` more credit stays within the credit limit.
    pub open spec fn extends(self, amount: int) -> bool {
        self.balance + amount <= self.credit_limit
    }

    /// Whether `amount` more debt stays within the debt limit.
    pub open spec fn borrows(self, amount: int) -> bool {
        self.balance - amount >= -self.debt_limit
    }

    /// The credit that can still be extended.
    pub open spec fn credit_left(self) -> u64 {
        clamped(self.credit_limit - self.balance)
    }

    /// The debt that can still be taken on.
    pub open spec fn debt_left(self) -> u64 {
        clamped(self.debt_limit + self.balance)
    }

    /// Whether a transaction keeps balance and volume in range.
    pub open spec fn countable(self, amount: int) -> bool {
        &&& i64::MIN <= self.balance + amount <= i64::MAX
        &&& self.total_volume + magnitude(amount) <= u64::MAX
    }

    /// The line after a transaction.
    pub open spec fn recorded(self, amount: int, now: u64) -> BilateralCreditView {
        BilateralCreditView {
            balance: (self.balance + amount) as i64,
            last_activity: now,
            total_volume: (self.total_volume + magnitude(amount)) as u64,
            ..self
        }
    }

    /// Whether the balance lies within both limits.
    pub open spec fn within_limits(self) -> bool {
        -self.debt_limit <= self.balance <= self.credit_limit
    }
}

/// A new line.
pub open spec fn new_line(
    counterparty: Seq<char>,
    credit_limit: u64,
    debt_limit: u64,
    now: u64,
) -> BilateralCreditView {
    BilateralCreditView {
        counterparty,
        balance: 0,
        credit_limit,
        debt_limit,
        established_at: now,
        last_activity: now,
        total_volume: 0,
    }
}

/// A transaction that a limit check lets through leaves a balanced line within
/// its limits.
pub proof fn lemma_checked_record_within_limits(line: BilateralCreditView, amount: i64, now: u64)
    requires
        line.within_limits(),
        line.countable(amount as int),
        amount > 0 ==> line.extends(amount as int),
        amount < 0 ==> line.borrows(-amount),
    ensures
        line.recorded(amount as int, now).within_limits(),
{
}

/// A payment and its reversal leave the balance where it was.
pub proof fn lemma_record_reversal(line: BilateralCreditView, amount: i64, now: u64, later: u64)
    requires
        line.countable(amount as int),
        line.recorded(amount as int, now).countable(-amount),
    ensures
        line.recorded(amount as int, now).recorded(-amount, later).balance == line.balance,
{
}

impl BilateralCredit {
    /// A new line with a zero balance.
    pub fn new(counterparty: Did, credit_limit: u64, debt_limit: u64, now: u64) -> (r: Self)
        ensures
            r.deep_view() == new_line(counterparty.deep_view(), credit_limit, debt_limit, now),
    {
        BilateralCredit {
            counterparty,
            balance: 0,
            credit_limit,
            debt_limit,
            established_at: now,
            last_activity: now,
            total_volume: 0,
        }
    }

    /// My net position: positive means they owe me.
    pub fn my_position(&self) -> (r: i64)
        ensures
            r == self.deep_view().balance,
    {
        self.balance
    }

    /// Whether `amount` more credit can be extended.
    pub fn can_extend(&self, amount: u64) -> (r: bool)
        ensures
            r == self.deep_view().extends(amount as int),
    {
        (self.balance as i128) + (amount as i128) <= (self.credit_limit as i128)
    }

    /// Whether `amount` more debt can be taken on.
    pub fn can_borrow(&self, amount: u64) -> (r: bool)
        ensures
            r == self.deep_view().borrows(amount as int),
    {
        (self.balance as i128) - (amount as i128) >= -(self.debt_limit as i128)
    }

    /// Records a transaction: a positive amount is paid to me, a negative one
    /// is paid by me. Returns the new balance.
    pub fn record(&mut self, amount: i64, now: u64) -> (r: i64)
        requires
            old(self).deep_view().countable(amount as int),
        ensures
            final(self).deep_view() == old(self).deep_view().recorded(amount as int, now),
            r == final(self).deep_view().balance,
    {
        self.balance = self.balance + amount;
        self.last_activity = now;
        self.total_volume = self.total_volume + magnitude_of(amount);
        self.balance
    }

    /// How much credit can still be extended.
    pub fn available_credit(&self) -> (r: u64)
        ensures
            r == self.deep_view().credit_left(),
    {
        clamp_amount((self.credit_limit as i128) - (self.balance as i128))
    }

    /// How much debt can still be taken on.
    pub fn available_debt(&self) -> (r: u64)
        ensures
            r == self.deep_view().debt_left(),
    {
        clamp_amount((self.debt_limit as i128) + (self.balance as i128))
    }
}

fn clamp_amount(n: i128) -> (r: u64)
    ensures
        r == clamped(n as int),
{
    if n < 0 {
        0
    } else if n > (u64::MAX as i128) {
        u64::MAX
    } else {
        n as u64
    }
}

} // verus!
