//! The credit ledger: all bilateral credit lines of one agent.
use crate::credit::{self, BilateralCredit, BilateralCreditView};
use crate::table::{self, Key};
use crate::twin::Twin;
use crate::types::Did;
use vstd::prelude::*;
use vstd::string::*;

verus! {

/// The credit lines of one agent, by counterparty.
#[derive(Debug, PartialEq, Eq)]
pub struct CreditLedger {
    keys: Vec<Did>,
    lines: Vec<BilateralCredit>,
}

/// What a ledger answers to a transaction: the new balance or the complaint.
pub open spec fn recording(
    rows: Seq<(Seq<char>, BilateralCreditView)>,
    counterparty: Seq<char>,
    amount: int,
) -> Result<int, Seq<char>> {
    match table::find(rows, counterparty) {
        None => Err("no credit line with this counterparty"@),
        Some(line) => if amount > 0 && !line.extends(amount) {
            Err("exceeds credit limit"@)
        } else if amount < 0 && !line.borrows(-amount) {
            Err("exceeds debt limit"@)
        } else {
            Ok(line.balance + amount)
        },
    }
}

/// Whether a transaction that would be recorded keeps its line in range.
pub open spec fn recordable(
    rows: Seq<(Seq<char>, BilateralCreditView)>,
    counterparty: Seq<char>,
    amount: int,
) -> bool {
    recording(rows, counterparty, amount) is Ok ==> table::at(rows, counterparty).countable(amount)
}

/// The rows after a transaction.
pub open spec fn after_recording(
    rows: Seq<(Seq<char>, BilateralCreditView)>,
    counterparty: Seq<char>,
    amount: int,
    now: u64,
) -> Seq<(Seq<char>, BilateralCreditView)> {
    if recording(rows, counterparty, amount) is Ok {
        table::put(rows, counterparty, table::at(rows, counterparty).recorded(amount, now))
    } else {
        rows
    }
}

/// The sum of all balances.
pub open spec fn balance_sum(rows: Seq<(Seq<char>, BilateralCreditView)>) -> int
    decreases rows.len(),
{
    if rows.len() == 0 {
        0
    } else {
        balance_sum(rows.drop_last()) + rows.last().1.balance
    }
}

/// The credit that can still be extended, for each counterparty with some.
pub open spec fn outbound(rows: Seq<(Seq<char>, BilateralCreditView)>) -> Seq<(Seq<char>, u64)>
    decreases rows.len(),
{
    if rows.len() == 0 {
        Seq::empty()
    } else {
        let rest = outbound(rows.drop_last());
        let left = rows.last().1.credit_left();
        if left > 0 {
            rest.push((rows.last().0, left))
        } else {
            rest
        }
    }
}

/// The debt that can still be taken on, for each counterparty with some.
pub open spec fn inbound(rows: Seq<(Seq<char>, BilateralCreditView)>) -> Seq<(Seq<char>, u64)>
    decreases rows.len(),
{
    if rows.len() == 0 {
        Seq::empty()
    } else {
        let rest = inbound(rows.drop_last());
        let left = rows.last().1.debt_left();
        if left > 0 {
            rest.push((rows.last().0, left))
        } else {
            rest
        }
    }
}

/// A recorded transaction changes the line of its counterparty and no other.
pub proof fn lemma_recording_is_local(
    rows: Seq<(Seq<char>, BilateralCreditView)>,
    counterparty: Seq<char>,
    amount: i64,
    now: u64,
    other: Seq<char>,
)
    requires
        table::distinct(rows),
        other != counterparty,
    ensures
        table::find(after_recording(rows, counterparty, amount as int, now), other) == table::find(
            rows,
            other,
        ),
{
    if recording(rows, counterparty, amount as int) is Ok {
        table::lemma_put_find(
            rows,
            counterparty,
            table::at(rows, counterparty).recorded(amount as int, now),
            other,
        );
    }
}

/// The ledger keeps every line within its limits: a transaction that would
/// leave them is refused.
pub proof fn lemma_recording_keeps_limits(
    rows: Seq<(Seq<char>, BilateralCreditView)>,
    counterparty: Seq<char>,
    amount: i64,
    now: u64,
    who: Seq<char>,
)
    requires
        table::distinct(rows),
        recordable(rows, counterparty, amount as int),
        table::find(rows, who) matches Some(line) ==> line.within_limits(),
    ensures
        table::find(after_recording(rows, counterparty, amount as int, now), who) matches Some(
            line,
        ) ==> line.within_limits(),
{
    if recording(rows, counterparty, amount as int) is Ok {
        let line = table::at(rows, counterparty);
        table::lemma_put_find(rows, counterparty, line.recorded(amount as int, now), who);
        if who == counterparty {
            credit::lemma_checked_record_within_limits(line, amount, now);
        }
    }
}

impl CreditLedger {
    /// The lines by counterparty, in order of creation.
    pub closed spec fn rows(&self) -> Seq<(Seq<char>, BilateralCreditView)> {
        Seq::new(
            self.lines@.len(),
            |i: int| (self.keys@[i].deep_view(), self.lines@[i].deep_view()),
        )
    }

    /// One line per counterparty.
    pub closed spec fn wf(&self) -> bool {
        &&& self.keys@.len() == self.lines@.len()
        &&& table::distinct(self.rows())
    }

    /// No counterparty has two lines.
    pub proof fn lemma_lines_distinct(&self)
        requires
            self.wf(),
        ensures
            table::distinct(self.rows()),
    {
    }

    /// An empty ledger.
    pub fn new() -> (r: Self)
        ensures
            r.wf(),
            r.rows() == Seq::<(Seq<char>, BilateralCreditView)>::empty(),
    {
        let r = CreditLedger { keys: Vec::new(), lines: Vec::new() };
        assert(r.rows() =~= Seq::<(Seq<char>, BilateralCreditView)>::empty());
        r
    }

    fn position(&self, counterparty: &Did) -> (r: Option<usize>)
        requires
            self.wf(),
        ensures
            match r {
                Some(i) => i < self.rows().len() && table::holds(
                    self.rows(),
                    counterparty.deep_view(),
                ) && table::place(self.rows(), counterparty.deep_view()) == i
                    && self.rows()[i as int].0 == counterparty.deep_view(),
                None => !table::holds(self.rows(), counterparty.deep_view()),
            },
    {
        let mut i: usize = 0;
        while i < self.keys.len()
            invariant
                i <= self.keys@.len(),
                self.wf(),
                forall|j: int|
                    0 <= j < i ==> #[trigger] self.rows()[j].0 != counterparty.deep_view(),
            decreases self.keys@.len() - i,
        {
            if self.keys[i].same(counterparty) {
                proof {
                    assert(self.rows()[i as int].0 == counterparty.deep_view());
                    table::lemma_place_unique(
                        self.rows(),
                        counterparty.deep_view(),
                        i as int,
                    );
                }
                return Some(i);
            }
            i = i + 1;
        }
        None
    }

    /// The line with a counterparty, created with the given limits when there
    /// is none.
    pub fn get_or_create(
        &mut self,
        counterparty: &Did,
        credit_limit: u64,
        debt_limit: u64,
        now: u64,
    ) -> (r: &mut BilateralCredit)
        requires
            old(self).wf(),
        ensures
            ({
                let rows = table::put_new(
                    old(self).rows(),
                    counterparty.deep_view(),
                    credit::new_line(counterparty.deep_view(), credit_limit, debt_limit, now),
                );
                &&& r.deep_view() == table::at(rows, counterparty.deep_view())
                &&& final(self).wf()
                &&& final(self).rows() == table::put(
                    rows,
                    counterparty.deep_view(),
                    final(r).deep_view(),
                )
            }),
    {
        let ghost before = self.rows();
        let at = match self.position(counterparty) {
            Some(i) => i,
            None => {
                self.keys.push(counterparty.twin());
                self.lines.push(
                    BilateralCredit::new(counterparty.twin(), credit_limit, debt_limit, now),
                );
                proof {
                    let line = credit::new_line(
                        counterparty.deep_view(),
                        credit_limit,
                        debt_limit,
                        now,
                    );
                    assert(self.rows() =~= before.push((counterparty.deep_view(), line)));
                    table::lemma_put_distinct(before, counterparty.deep_view(), line);
                }
                self.lines.len() - 1
            },
        };
        let ghost rows = self.rows();
        proof {
            assert(rows[at as int].0 == counterparty.deep_view());
            table::lemma_place_unique(rows, counterparty.deep_view(), at as int);
            assert forall|v: BilateralCreditView| #[trigger]
                table::distinct(rows.update(at as int, (counterparty.deep_view(), v))) by {
                table::lemma_put_distinct(rows, counterparty.deep_view(), v);
            }
        }
        let ghost keys = self.keys@;
        let ghost lines = self.lines@;
        let r = &mut self.lines[at];
        proof {
            let after = Seq::new(
                lines.len(),
                |i: int|
                    (
                        keys[i].deep_view(),
                        lines.update(at as int, *final(r))[i].deep_view(),
                    ),
            );
            assert(after =~= rows.update(
                at as int,
                (counterparty.deep_view(), final(r).deep_view()),
            ));
        }
        r
    }

    /// The line with a counterparty.
    pub fn get(&self, counterparty: &Did) -> (r: Option<&BilateralCredit>)
        requires
            self.wf(),
        ensures
            r.deep_view() == table::find(self.rows(), counterparty.deep_view()),
    {
        match self.position(counterparty) {
            Some(i) => Some(&self.lines[i]),
            None => None,
        }
    }

    /// The line with a counterparty, to be changed in place.
    pub fn get_mut(&mut self, counterparty: &Did) -> (r: Option<&mut BilateralCredit>)
        requires
            old(self).wf(),
        ensures
            match r {
                None => !table::holds(old(self).rows(), counterparty.deep_view())
                    && final(self).wf() && final(self).rows() == old(self).rows(),
                Some(line) => {
                    &&& table::holds(old(self).rows(), counterparty.deep_view())
                    &&& line.deep_view() == table::at(
                        old(self).rows(),
                        counterparty.deep_view(),
                    )
                    &&& final(self).wf()
                    &&& final(self).rows() == table::put(
                        old(self).rows(),
                        counterparty.deep_view(),
                        final(line).deep_view(),
                    )
                },
            },
    {
        match self.position(counterparty) {
            None => None,
            Some(at) => {
                let ghost rows = self.rows();
                proof {
                    assert forall|v: BilateralCreditView| #[trigger]
                        table::distinct(
                            rows.update(at as int, (counterparty.deep_view(), v)),
                        ) by {
                        table::lemma_put_distinct(rows, counterparty.deep_view(), v);
                    }
                }
                let ghost keys = self.keys@;
                let ghost lines = self.lines@;
                let r = &mut self.lines[at];
                proof {
                    let after = Seq::new(
                        lines.len(),
                        |i: int|
                            (
                                keys[i].deep_view(),
                                lines.update(at as int, *final(r))[i].deep_view(),
                            ),
                    );
                    assert(after =~= rows.update(
                        at as int,
                        (counterparty.deep_view(), final(r).deep_view()),
                    ));
                }
                Some(r)
            },
        }
    }

    /// Records a transaction within the limits of its line: a positive amount is
    /// paid to me, a negative one is paid by me.
    pub fn record(&mut self, counterparty: &Did, amount: i64, now: u64) -> (r: Result<
        i64,
        &'static str,
    >)
        requires
            old(self).wf(),
            recordable(old(self).rows(), counterparty.deep_view(), amount as int),
        ensures
            final(self).wf(),
            final(self).rows() == after_recording(
                old(self).rows(),
                counterparty.deep_view(),
                amount as int,
                now,
            ),
            match r {
                Ok(balance) => recording(
                    old(self).rows(),
                    counterparty.deep_view(),
                    amount as int,
                ) == Ok::<int, Seq<char>>(balance as int),
                Err(message) => recording(
                    old(self).rows(),
                    counterparty.deep_view(),
                    amount as int,
                ) == Err::<int, Seq<char>>(message@),
            },
    {
        match self.get_mut(counterparty) {
            None => Err("no credit line with this counterparty"),
            Some(line) => {
                if amount > 0 && !line.can_extend(amount as u64) {
                    proof {
                        table::lemma_put_same(old(self).rows(), counterparty.deep_view());
                    }
                    return Err("exceeds credit limit");
                }
                if amount < 0 && !line.can_borrow(credit::magnitude_of(amount)) {
                    proof {
                        table::lemma_put_same(old(self).rows(), counterparty.deep_view());
                    }
                    return Err("exceeds debt limit");
                }
                Ok(line.record(amount, now))
            },
        }
    }

    /// Changes the limits of a line, if there is one.
    pub fn set_limits(&mut self, counterparty: &Did, credit_limit: u64, debt_limit: u64)
        requires
            old(self).wf(),
        ensures
            final(self).wf(),
            final(self).rows() == (match table::find(old(self).rows(), counterparty.deep_view()) {
                None => old(self).rows(),
                Some(line) => table::put(
                    old(self).rows(),
                    counterparty.deep_view(),
                    BilateralCreditView { credit_limit, debt_limit, ..line },
                ),
            }),
    {
        match self.get_mut(counterparty) {
            None => {},
            Some(line) => {
                line.credit_limit = credit_limit;
                line.debt_limit = debt_limit;
            },
        }
    }

    /// All lines, in order of creation.
    pub fn iter(&self) -> (r: Vec<&BilateralCredit>)
        requires
            self.wf(),
        ensures
            r.deep_view() == table::values(self.rows()),
    {
        let mut r: Vec<&BilateralCredit> = Vec::new();
        let mut i: usize = 0;
        while i < self.lines.len()
            invariant
                i <= self.lines@.len(),
                r@.len() == i,
                forall|j: int| 0 <= j < i ==> (#[trigger] r@[j]).deep_view() == self.rows()[j].1,
            decreases self.lines@.len() - i,
        {
            r.push(&self.lines[i]);
            i = i + 1;
        }
        assert(r.deep_view() =~= table::values(self.rows()));
        r
    }

    /// The number of lines.
    pub fn len(&self) -> (r: usize)
        ensures
            r == self.rows().len(),
    {
        self.lines.len()
    }

    /// Whether there are no lines.
    pub fn is_empty(&self) -> (r: bool)
        ensures
            r == (self.rows().len() == 0),
    {
        self.lines.len() == 0
    }

    /// The net position over all lines: positive when others owe me.
    pub fn net_position(&self) -> (r: i64)
        requires
            i64::MIN <= balance_sum(self.rows()) <= i64::MAX,
        ensures
            r == balance_sum(self.rows()),
    {
        let mut sum: i128 = 0;
        let mut i: usize = 0;
        while i < self.lines.len()
            invariant
                i <= self.lines@.len(),
                sum == balance_sum(self.rows().subrange(0, i as int)),
                -0x8000_0000_0000_0000 * i <= sum <= 0x8000_0000_0000_0000 * i,
            decreases self.lines@.len() - i,
        {
            proof {
                let upto = self.rows().subrange(0, i + 1);
                assert(upto.drop_last() =~= self.rows().subrange(0, i as int));
                assert(upto.last() == self.rows()[i as int]);
            }
            sum = sum + (self.lines[i].balance as i128);
            i = i + 1;
        }
        assert(self.rows().subrange(0, i as int) =~= self.rows());
        sum as i64
    }

    /// The credit that can still be extended, for each counterparty with some.
    pub fn outbound_edges(&self) -> (r: Vec<(Did, u64)>)
        requires
            self.wf(),
        ensures
            r.deep_view() == outbound(self.rows()),
    {
        let mut r: Vec<(Did, u64)> = Vec::new();
        let mut i: usize = 0;
        assert(r.deep_view() =~= Seq::<(Seq<char>, u64)>::empty());
        while i < self.lines.len()
            invariant
                i <= self.lines@.len(),
                self.wf(),
                r.deep_view() == outbound(self.rows().subrange(0, i as int)),
            decreases self.lines@.len() - i,
        {
            let ghost before = r.deep_view();
            proof {
                let upto = self.rows().subrange(0, i + 1);
                assert(upto.drop_last() =~= self.rows().subrange(0, i as int));
                assert(upto.last() == self.rows()[i as int]);
            }
            let left = self.lines[i].available_credit();
            if left > 0 {
                r.push((self.keys[i].twin(), left));
                assert(r.deep_view() =~= before.push((self.rows()[i as int].0, left)));
            }
            i = i + 1;
        }
        assert(self.rows().subrange(0, i as int) =~= self.rows());
        r
    }

    /// The debt that can still be taken on, for each counterparty with some.
    pub fn inbound_edges(&self) -> (r: Vec<(Did, u64)>)
        requires
            self.wf(),
        ensures
            r.deep_view() == inbound(self.rows()),
    {
        let mut r: Vec<(Did, u64)> = Vec::new();
        let mut i: usize = 0;
        assert(r.deep_view() =~= Seq::<(Seq<char>, u64)>::empty());
        while i < self.lines.len()
            invariant
                i <= self.lines@.len(),
                self.wf(),
                r.deep_view() == inbound(self.rows().subrange(0, i as int)),
            decreases self.lines@.len() - i,
        {
            let ghost before = r.deep_view();
            proof {
                let upto = self.rows().subrange(0, i + 1);
                assert(upto.drop_last() =~= self.rows().subrange(0, i as int));
                assert(upto.last() == self.rows()[i as int]);
            }
            let left = self.lines[i].available_debt();
            if left > 0 {
                r.push((self.keys[i].twin(), left));
                assert(r.deep_view() =~= before.push((self.rows()[i as int].0, left)));
            }
            i = i + 1;
        }
        assert(self.rows().subrange(0, i as int) =~= self.rows());
        r
    }
}

} // verus!
