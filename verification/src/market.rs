//! The task market: bids on published tasks, and settlement of their results.
use crate::credit::BilateralCreditView;
use crate::ledger::{self, CreditLedger};
use crate::manifest::{names, AgentManifestView};
use crate::order;
use crate::registry::AgentRegistry;
use crate::table::{self, Key, Table};
use crate::task::{
    ended, open_for_bids, receipt_proves, same_texts, ExecutionReceiptError,
    ExecutionReceiptErrorView, Task, TaskBid, TaskOffer, TaskOfferView, TaskResult, TaskResultView,
    TaskState, TaskView,
};
use crate::text;
use crate::twin::{outcome, Twin};
use crate::types::Did;
use vstd::prelude::*;
use vstd::string::*;

verus! {

/// Why a market operation is refused.
#[derive(Debug, PartialEq, Eq)]
pub enum MarketError {
    TaskNotFound(String),
    TaskNotOpen,
    TaskAlreadyAssigned,
    /// The agent submitted no bid.
    BidNotFound,
    TaskNotAssigned,
    ResultExecutorMismatch,
    ResultExceedsBudget,
    ResultExceedsAcceptedBid,
    ReceiptCommandMismatch,
    /// A success needs a signed receipt.
    MissingExecutionReceipt,
    InvalidExecutionReceipt(ExecutionReceiptError),
    BidExceedsBudget,
    MissingCapability,
    SettlementFailed(String),
    Other(String),
}

/// The mathematical form of [`MarketError`].
pub enum MarketErrorView {
    TaskNotFound(Seq<char>),
    TaskNotOpen,
    TaskAlreadyAssigned,
    BidNotFound,
    TaskNotAssigned,
    ResultExecutorMismatch,
    ResultExceedsBudget,
    ResultExceedsAcceptedBid,
    ReceiptCommandMismatch,
    MissingExecutionReceipt,
    InvalidExecutionReceipt(ExecutionReceiptErrorView),
    BidExceedsBudget,
    MissingCapability,
    SettlementFailed(Seq<char>),
    Other(Seq<char>),
}

impl DeepView for MarketError {
    type V = MarketErrorView;

    open spec fn deep_view(&self) -> MarketErrorView {
        match self {
            MarketError::TaskNotFound(a0) => MarketErrorView::TaskNotFound(a0.deep_view()),
            MarketError::TaskNotOpen => MarketErrorView::TaskNotOpen,
            MarketError::TaskAlreadyAssigned => MarketErrorView::TaskAlreadyAssigned,
            MarketError::BidNotFound => MarketErrorView::BidNotFound,
            MarketError::TaskNotAssigned => MarketErrorView::TaskNotAssigned,
            MarketError::ResultExecutorMismatch => MarketErrorView::ResultExecutorMismatch,
            MarketError::ResultExceedsBudget => MarketErrorView::ResultExceedsBudget,
            MarketError::ResultExceedsAcceptedBid => MarketErrorView::ResultExceedsAcceptedBid,
            MarketError::ReceiptCommandMismatch => MarketErrorView::ReceiptCommandMismatch,
            MarketError::MissingExecutionReceipt => MarketErrorView::MissingExecutionReceipt,
            MarketError::InvalidExecutionReceipt(a0) => MarketErrorView::InvalidExecutionReceipt(a0.deep_view()),
            MarketError::BidExceedsBudget => MarketErrorView::BidExceedsBudget,
            MarketError::MissingCapability => MarketErrorView::MissingCapability,
            MarketError::SettlementFailed(a0) => MarketErrorView::SettlementFailed(a0.deep_view()),
            MarketError::Other(a0) => MarketErrorView::Other(a0.deep_view()),
        }
    }
}

impl Twin for MarketError {
    fn twin(&self) -> (r: Self) {
        match self {
            MarketError::TaskNotFound(a0) => MarketError::TaskNotFound(a0.twin()),
            MarketError::TaskNotOpen => MarketError::TaskNotOpen,
            MarketError::TaskAlreadyAssigned => MarketError::TaskAlreadyAssigned,
            MarketError::BidNotFound => MarketError::BidNotFound,
            MarketError::TaskNotAssigned => MarketError::TaskNotAssigned,
            MarketError::ResultExecutorMismatch => MarketError::ResultExecutorMismatch,
            MarketError::ResultExceedsBudget => MarketError::ResultExceedsBudget,
            MarketError::ResultExceedsAcceptedBid => MarketError::ResultExceedsAcceptedBid,
            MarketError::ReceiptCommandMismatch => MarketError::ReceiptCommandMismatch,
            MarketError::MissingExecutionReceipt => MarketError::MissingExecutionReceipt,
            MarketError::InvalidExecutionReceipt(a0) => MarketError::InvalidExecutionReceipt(a0.twin()),
            MarketError::BidExceedsBudget => MarketError::BidExceedsBudget,
            MarketError::MissingCapability => MarketError::MissingCapability,
            MarketError::SettlementFailed(a0) => MarketError::SettlementFailed(a0.twin()),
            MarketError::Other(a0) => MarketError::Other(a0.twin()),
        }
    }
}

impl Clone for MarketError {
    fn clone(&self) -> (r: Self)
        ensures
            r.deep_view() == self.deep_view(),
    {
        self.twin()
    }
}

/// The task marketplace: tasks, their bids, which bid was accepted, and results.
#[derive(Debug, PartialEq, Eq)]
pub struct TaskMarket {
    tasks: Table<String, Task>,
    bids: Table<String, Vec<TaskOffer>>,
    accepted_bids: Table<String, TaskOffer>,
    results: Table<String, TaskResult>,
}

/// The mathematical form of [`TaskMarket`].
#[verifier::ext_equal]
pub struct TaskMarketView {
    pub tasks: Seq<(Seq<char>, TaskView)>,
    pub bids: Seq<(Seq<char>, Seq<TaskOfferView>)>,
    pub accepted_bids: Seq<(Seq<char>, TaskOfferView)>,
    pub results: Seq<(Seq<char>, TaskResultView)>,
}

impl DeepView for TaskMarket {
    type V = TaskMarketView;

    closed spec fn deep_view(&self) -> TaskMarketView {
        TaskMarketView {
            tasks: self.tasks.deep_view(),
            bids: self.bids.deep_view(),
            accepted_bids: self.accepted_bids.deep_view(),
            results: self.results.deep_view(),
        }
    }
}

impl Twin for TaskMarket {
    fn twin(&self) -> (r: Self) {
        TaskMarket {
            tasks: self.tasks.twin(),
            bids: self.bids.twin(),
            accepted_bids: self.accepted_bids.twin(),
            results: self.results.twin(),
        }
    }
}

impl Clone for TaskMarket {
    fn clone(&self) -> (r: Self)
        ensures
            r.deep_view() == self.deep_view(),
    {
        self.twin()
    }
}

/// The bids on a task.
pub open spec fn bids_on(v: TaskMarketView, task_id: Seq<char>) -> Seq<TaskOfferView> {
    match table::find(v.bids, task_id) {
        Some(bids) => bids,
        None => Seq::empty(),
    }
}

/// The first bid of a bidder.
pub open spec fn bid_of(bids: Seq<TaskOfferView>, bidder: Seq<char>) -> Option<TaskOfferView>
    decreases bids.len(),
{
    if bids.len() == 0 {
        None
    } else if bids[0].bidder == bidder {
        Some(bids[0])
    } else {
        bid_of(bids.skip(1), bidder)
    }
}

/// The tasks that pass a test, in order of publication.
pub open spec fn tasks_where(
    rows: Seq<(Seq<char>, TaskView)>,
    keep: spec_fn(TaskView) -> bool,
) -> Seq<TaskView>
    decreases rows.len(),
{
    if rows.len() == 0 {
        Seq::empty()
    } else {
        let rest = tasks_where(rows.drop_last(), keep);
        if keep(rows.last().1) {
            rest.push(rows.last().1)
        } else {
            rest
        }
    }
}

/// Tests for an open task, and for the capability that it requires where one is
/// given.
pub open spec fn wanted(capability: Option<Seq<char>>) -> spec_fn(TaskView) -> bool {
    |t: TaskView|
        open_for_bids(t) && (capability matches Some(name) ==> t.required_capability == name)
}

/// Whether a bid is taken.
pub open spec fn bid_verdict(
    v: TaskMarketView,
    agents: Seq<(Seq<char>, AgentManifestView)>,
    bid: TaskOfferView,
) -> Result<(), MarketErrorView> {
    match table::find(v.tasks, bid.task_id) {
        None => Err(MarketErrorView::TaskNotFound(bid.task_id)),
        Some(task) => if !open_for_bids(task) {
            Err(MarketErrorView::TaskNotOpen)
        } else if bid.price > task.max_budget {
            Err(MarketErrorView::BidExceedsBudget)
        } else {
            match table::find(agents, bid.bidder) {
                None => Err(MarketErrorView::MissingCapability),
                Some(agent) => if names(agent.provides, task.required_capability) {
                    Ok(())
                } else {
                    Err(MarketErrorView::MissingCapability)
                },
            }
        },
    }
}

/// Whether a bid is accepted.
pub open spec fn acceptance_verdict(
    v: TaskMarketView,
    task_id: Seq<char>,
    bidder: Seq<char>,
) -> Result<(), MarketErrorView> {
    if bid_of(bids_on(v, task_id), bidder) is None {
        Err(MarketErrorView::BidNotFound)
    } else {
        match table::find(v.tasks, task_id) {
            None => Err(MarketErrorView::TaskNotFound(task_id)),
            Some(task) => if open_for_bids(task) {
                Ok(())
            } else {
                Err(MarketErrorView::TaskNotOpen)
            },
        }
    }
}

/// The market after a bid was accepted.
pub open spec fn after_acceptance(
    v: TaskMarketView,
    task_id: Seq<char>,
    bidder: Seq<char>,
) -> TaskMarketView {
    TaskMarketView {
        tasks: table::put(
            v.tasks,
            task_id,
            TaskView {
                state: TaskState::InProgress,
                assigned_to: Some(bidder),
                ..table::at(v.tasks, task_id)
            },
        ),
        accepted_bids: table::put(
            v.accepted_bids,
            task_id,
            bid_of(bids_on(v, task_id), bidder)->Some_0,
        ),
        ..v
    }
}

/// Whether a result ends its task: the assigned agent made it, it costs no more
/// than budget and bid allow, and a success is proved by a receipt for the
/// task's command.
pub open spec fn completion_verdict(v: TaskMarketView, result: TaskResultView) -> Result<
    (),
    MarketErrorView,
> {
    match table::find(v.tasks, result.task_id) {
        None => Err(MarketErrorView::TaskNotFound(result.task_id)),
        Some(task) => if task.assigned_to is None {
            Err(MarketErrorView::TaskNotAssigned)
        } else if task.assigned_to->Some_0 != result.executor {
            Err(MarketErrorView::ResultExecutorMismatch)
        } else if result.actual_cost > task.max_budget {
            Err(MarketErrorView::ResultExceedsBudget)
        } else if table::holds(v.accepted_bids, result.task_id) && result.actual_cost > table::at(
            v.accepted_bids,
            result.task_id,
        ).price {
            Err(MarketErrorView::ResultExceedsAcceptedBid)
        } else if result.success && result.receipt is None {
            Err(MarketErrorView::MissingExecutionReceipt)
        } else {
            match receipt_proves(result) {
                Err(e) => Err(MarketErrorView::InvalidExecutionReceipt(e)),
                Ok(_) => if result.success && (result.receipt->Some_0.command != task.command
                    || result.receipt->Some_0.args != task.args) {
                    Err(MarketErrorView::ReceiptCommandMismatch)
                } else {
                    Ok(())
                },
            }
        },
    }
}

/// Why a cost cannot be paid to an executor, if it cannot: without a credit line
/// nothing can, and no line holds a debt beyond the range of balances.
pub open spec fn payment_failure(
    rows: Seq<(Seq<char>, BilateralCreditView)>,
    executor: Seq<char>,
    cost: u64,
) -> Option<Seq<char>> {
    if !table::holds(rows, executor) {
        Some("no credit line with this counterparty"@)
    } else if cost > i64::MAX {
        Some("exceeds debt limit"@)
    } else {
        match ledger::recording(rows, executor, -cost) {
            Ok(_) => None,
            Err(message) => Some(message),
        }
    }
}

/// What a completed task returns.
pub open spec fn completion(
    v: TaskMarketView,
    rows: Seq<(Seq<char>, BilateralCreditView)>,
    result: TaskResultView,
) -> Result<(), MarketErrorView> {
    match completion_verdict(v, result) {
        Err(e) => Err(e),
        Ok(_) => match payment_failure(rows, result.executor, result.actual_cost) {
            Some(message) if result.success => Err(MarketErrorView::SettlementFailed(message)),
            _ => Ok(()),
        },
    }
}

/// The market after a result: an admitted result ends its task, and it is kept
/// where payment did not fail.
pub open spec fn after_completion(
    v: TaskMarketView,
    rows: Seq<(Seq<char>, BilateralCreditView)>,
    result: TaskResultView,
) -> TaskMarketView {
    if completion_verdict(v, result) is Err {
        v
    } else {
        TaskMarketView {
            tasks: table::put(
                v.tasks,
                result.task_id,
                TaskView {
                    state: if result.success {
                        TaskState::Completed
                    } else {
                        TaskState::Failed
                    },
                    ..table::at(v.tasks, result.task_id)
                },
            ),
            results: if completion(v, rows, result) is Ok {
                table::put(v.results, result.task_id, result)
            } else {
                v.results
            },
            ..v
        }
    }
}

/// The ledger after a result: a success that is admitted and can be paid is paid
/// to its executor, and nothing else is.
pub open spec fn ledger_after(
    v: TaskMarketView,
    rows: Seq<(Seq<char>, BilateralCreditView)>,
    result: TaskResultView,
    now: u64,
) -> Seq<(Seq<char>, BilateralCreditView)> {
    if result.success && completion(v, rows, result) is Ok {
        ledger::after_recording(rows, result.executor, -result.actual_cost, now)
    } else {
        rows
    }
}

/// What is paid for a task exceeds neither its budget nor its accepted bid, goes
/// to the agent that it was assigned to, and is proved by that agent's signed
/// receipt.
pub proof fn lemma_payment_is_owed(
    v: TaskMarketView,
    rows: Seq<(Seq<char>, BilateralCreditView)>,
    result: TaskResultView,
    now: u64,
)
    requires
        ledger_after(v, rows, result, now) != rows,
    ensures
        table::holds(v.tasks, result.task_id),
        table::at(v.tasks, result.task_id).assigned_to == Some(result.executor),
        result.actual_cost <= table::at(v.tasks, result.task_id).max_budget,
        table::find(v.accepted_bids, result.task_id) matches Some(bid) ==> result.actual_cost
            <= bid.price,
        result.success,
        result.receipt is Some,
        receipt_proves(result) is Ok,
{
}

/// An accepted bid was submitted by the agent that gets the task.
pub proof fn lemma_acceptance_assigns_bidder(
    v: TaskMarketView,
    task_id: Seq<char>,
    bidder: Seq<char>,
)
    requires
        table::distinct(v.tasks),
        table::distinct(v.accepted_bids),
        acceptance_verdict(v, task_id, bidder) is Ok,
    ensures
        ({
            let after = after_acceptance(v, task_id, bidder);
            &&& table::at(after.tasks, task_id).assigned_to == Some(bidder)
            &&& table::find(after.accepted_bids, task_id) matches Some(bid) && bid.bidder == bidder
                && bids_on(v, task_id).contains(bid)
            &&& acceptance_verdict(after, task_id, bidder) == Err::<(), MarketErrorView>(
                MarketErrorView::TaskNotOpen,
            )
        }),
{
    let after = after_acceptance(v, task_id, bidder);
    table::lemma_put_find(v.tasks, task_id, table::at(after.tasks, task_id), task_id);
    let bid = bid_of(bids_on(v, task_id), bidder)->Some_0;
    lemma_bid_of(bids_on(v, task_id), bidder);
    table::lemma_put_find(v.accepted_bids, task_id, bid, task_id);
    table::lemma_put_find(
        v.tasks,
        task_id,
        TaskView {
            state: TaskState::InProgress,
            assigned_to: Some(bidder),
            ..table::at(v.tasks, task_id)
        },
        task_id,
    );
}

proof fn lemma_bid_of(bids: Seq<TaskOfferView>, bidder: Seq<char>)
    ensures
        bid_of(bids, bidder) matches Some(bid) ==> bid.bidder == bidder && bids.contains(bid),
    decreases bids.len(),
{
    if bids.len() > 0 {
        lemma_bid_of(bids.skip(1), bidder);
        if bids[0].bidder != bidder {
            if let Some(bid) = bid_of(bids.skip(1), bidder) {
                let i = bids.skip(1).index_of(bid);
                assert(bids[i + 1] == bid);
            }
        } else {
            assert(bids.contains(bids[0]));
        }
    }
}

impl TaskMarket {
    /// An empty market.
    pub fn new() -> (r: Self)
        ensures
            r.deep_view() == (TaskMarketView {
                tasks: Seq::empty(),
                bids: Seq::empty(),
                accepted_bids: Seq::empty(),
                results: Seq::empty(),
            }),
    {
        TaskMarket {
            tasks: Table::new(),
            bids: Table::new(),
            accepted_bids: Table::new(),
            results: Table::new(),
        }
    }

    /// Publishes a task.
    pub fn publish(&mut self, task: Task)
        ensures
            final(self).deep_view() == (TaskMarketView {
                tasks: table::put(
                    old(self).deep_view().tasks,
                    task.deep_view().id,
                    task.deep_view(),
                ),
                ..old(self).deep_view()
            }),
    {
        self.tasks.insert(task.id.twin(), task);
    }

    /// The task with an identifier.
    pub fn get_task(&self, task_id: &str) -> (r: Option<&Task>)
        ensures
            r.deep_view() == table::find(self.deep_view().tasks, task_id@),
    {
        self.tasks.get(&text::owned(task_id))
    }

    fn select(&self, capability: Option<&str>) -> (r: Vec<&Task>)
        ensures
            r.deep_view() == tasks_where(
                self.deep_view().tasks,
                wanted(match capability {
                    Some(name) => Some(name@),
                    None => None,
                }),
            ),
    {
        let ghost keep = wanted(match capability {
            Some(name) => Some(name@),
            None => None,
        });
        let ghost rows = self.tasks.rows();
        let n = self.tasks.len();
        let mut r: Vec<&Task> = Vec::new();
        let mut i: usize = 0;
        assert(r.deep_view() =~= Seq::<TaskView>::empty());
        while i < n
            invariant
                i <= n,
                n == rows.len(),
                rows == self.tasks.rows(),
                keep == wanted(match capability {
                    Some(name) => Some(name@),
                    None => None,
                }),
                r.deep_view() == tasks_where(rows.subrange(0, i as int), keep),
            decreases n - i,
        {
            let ghost before = r.deep_view();
            proof {
                let upto = rows.subrange(0, i + 1);
                assert(upto.drop_last() =~= rows.subrange(0, i as int));
                assert(upto.last() == rows[i as int]);
            }
            let task = self.tasks.value_at(i);
            let fits = match capability {
                Some(name) => text::same_text(task.required_capability.as_str(), name),
                None => true,
            };
            if task.is_open() && fits {
                r.push(task);
                assert(r.deep_view() =~= before.push(task.deep_view()));
            }
            i = i + 1;
        }
        assert(rows.subrange(0, i as int) =~= rows);
        r
    }

    /// All open tasks.
    pub fn open_tasks(&self) -> (r: Vec<&Task>)
        ensures
            r.deep_view() == tasks_where(self.deep_view().tasks, wanted(None)),
    {
        self.select(None)
    }

    /// The open tasks that require a capability.
    pub fn open_tasks_for(&self, capability: &str) -> (r: Vec<&Task>)
        ensures
            r.deep_view() == tasks_where(self.deep_view().tasks, wanted(Some(capability@))),
    {
        self.select(Some(capability))
    }

    /// Submits a bid.
    pub fn submit_bid(&mut self, bid: TaskBid, registry: &AgentRegistry) -> (r: Result<
        (),
        MarketError,
    >)
        ensures
            outcome(r) == bid_verdict(
                old(self).deep_view(),
                registry.agents(),
                bid.deep_view(),
            ),
            final(self).deep_view() == (if r is Ok {
                TaskMarketView {
                    bids: table::put(
                        old(self).deep_view().bids,
                        bid.deep_view().task_id,
                        bids_on(old(self).deep_view(), bid.deep_view().task_id).push(
                            bid.deep_view(),
                        ),
                    ),
                    ..old(self).deep_view()
                }
            } else {
                old(self).deep_view()
            }),
    {
        match self.tasks.get(&bid.task_id) {
            None => return Err(MarketError::TaskNotFound(bid.task_id)),
            Some(task) => {
                if !task.is_open() {
                    return Err(MarketError::TaskNotOpen);
                }
                if bid.price > task.max_budget {
                    return Err(MarketError::BidExceedsBudget);
                }
                match registry.get(&bid.bidder) {
                    None => return Err(MarketError::MissingCapability),
                    Some(agent) => {
                        if !agent.provides_named(task.required_capability.as_str()) {
                            return Err(MarketError::MissingCapability);
                        }
                    },
                }
            },
        }
        let mut bids = match self.bids.get(&bid.task_id) {
            Some(bids) => bids.twin(),
            None => Vec::new(),
        };
        let ghost before = bids.deep_view();
        assert(before =~= bids_on(old(self).deep_view(), bid.deep_view().task_id));
        let task_id = bid.task_id.twin();
        bids.push(bid);
        assert(bids.deep_view() =~= before.push(bid.deep_view()));
        self.bids.insert(task_id, bids);
        Ok(())
    }

    /// All bids on a task.
    pub fn get_bids(&self, task_id: &str) -> (r: &[TaskBid])
        ensures
            r.deep_view() == bids_on(self.deep_view(), task_id@),
    {
        match self.bids.get(&text::owned(task_id)) {
            Some(bids) => {
                let all = bids.as_slice();
                assert(all.deep_view() =~= bids.deep_view());
                all
            },
            None => {
                let none: &[TaskBid] = &[];
                assert(none.deep_view() =~= Seq::<TaskOfferView>::empty());
                none
            },
        }
    }

    /// The cheapest bid on a task; of several, the first.
    pub fn cheapest_bid(&self, task_id: &str) -> (r: Option<&TaskBid>)
        ensures
            ({
                let bids = bids_on(self.deep_view(), task_id@);
                let prices = Seq::new(bids.len(), |i: int| bids[i].price);
                if bids.len() == 0 {
                    r is None
                } else {
                    r.deep_view() == Some(bids[order::least_at(prices)])
                }
            }),
    {
        match self.bids.get(&text::owned(task_id)) {
            None => None,
            Some(bids) => {
                if bids.len() == 0 {
                    return None;
                }
                let mut prices: Vec<u64> = Vec::new();
                while prices.len() < bids.len()
                    invariant
                        prices@.len() <= bids@.len(),
                        forall|j: int|
                            0 <= j < prices@.len() ==> #[trigger] prices@[j]
                                == bids.deep_view()[j].price,
                    decreases bids@.len() - prices@.len(),
                {
                    let price = bids[prices.len()].price;
                    prices.push(price);
                }
                assert(prices@ =~= Seq::new(
                    bids.deep_view().len(),
                    |i: int| bids.deep_view()[i].price,
                ));
                Some(&bids[order::find_least(&prices)])
            },
        }
    }

    fn find_bid(&self, task_id: &str, bidder: &Did) -> (r: Option<TaskOffer>)
        ensures
            r.deep_view() == bid_of(bids_on(self.deep_view(), task_id@), bidder.deep_view()),
    {
        match self.bids.get(&text::owned(task_id)) {
            None => None,
            Some(bids) => {
                let ghost all = bids.deep_view();
                let mut i: usize = 0;
                assert(all.skip(0) =~= all);
                while i < bids.len()
                    invariant
                        i <= bids@.len(),
                        all == bids.deep_view(),
                        all == bids_on(self.deep_view(), task_id@),
                        bid_of(all, bidder.deep_view()) == bid_of(
                            all.skip(i as int),
                            bidder.deep_view(),
                        ),
                    decreases bids@.len() - i,
                {
                    assert(all.skip(i as int)[0] == bids@[i as int].deep_view());
                    assert(all.skip(i as int).skip(1) =~= all.skip(i + 1));
                    if bids[i].bidder.same(bidder) {
                        return Some(bids[i].twin());
                    }
                    i = i + 1;
                }
                None
            },
        }
    }

    /// Accepts a bid and assigns the task.
    pub fn accept_bid(&mut self, task_id: &str, bidder: &Did) -> (r: Result<(), MarketError>)
        ensures
            outcome(r) == acceptance_verdict(
                old(self).deep_view(),
                task_id@,
                bidder.deep_view(),
            ),
            final(self).deep_view() == (if r is Ok {
                after_acceptance(old(self).deep_view(), task_id@, bidder.deep_view())
            } else {
                old(self).deep_view()
            }),
    {
        let key = text::owned(task_id);
        match self.find_bid(task_id, bidder) {
            None => Err(MarketError::BidNotFound),
            Some(bid) => {
                let mut task = match self.tasks.get(&key) {
                    None => {
                        return Err(MarketError::TaskNotFound(key));
                    },
                    Some(task) => task.twin(),
                };
                if !task.is_open() {
                    return Err(MarketError::TaskNotOpen);
                }
                task.accept_bid(bidder);
                self.tasks.insert(text::owned(task_id), task);
                self.accepted_bids.insert(key, bid);
                Ok(())
            },
        }
    }

    fn check_completion(&self, result: &TaskResult) -> (r: Result<(), MarketError>)
        ensures
            outcome(r) == completion_verdict(self.deep_view(), result.deep_view()),
    {
        match self.tasks.get(&result.task_id) {
            None => Err(MarketError::TaskNotFound(result.task_id.twin())),
            Some(task) => {
                match &task.assigned_to {
                    None => {
                        return Err(MarketError::TaskNotAssigned);
                    },
                    Some(assigned) => {
                        if !assigned.same(&result.executor) {
                            return Err(MarketError::ResultExecutorMismatch);
                        }
                    },
                }
                if result.actual_cost > task.max_budget {
                    return Err(MarketError::ResultExceedsBudget);
                }
                match self.accepted_bids.get(&result.task_id) {
                    Some(bid) => {
                        if result.actual_cost > bid.price {
                            return Err(MarketError::ResultExceedsAcceptedBid);
                        }
                    },
                    None => {},
                }
                if result.success && result.receipt.is_none() {
                    return Err(MarketError::MissingExecutionReceipt);
                }
                match result.validate_receipt() {
                    Err(e) => {
                        return Err(MarketError::InvalidExecutionReceipt(e));
                    },
                    Ok(_) => {},
                }
                if result.success {
                    match &result.receipt {
                        None => {},
                        Some(receipt) => {
                            if !receipt.command.same(&task.command) || !same_texts(
                                &receipt.args,
                                &task.args,
                            ) {
                                return Err(MarketError::ReceiptCommandMismatch);
                            }
                        },
                    }
                }
                Ok(())
            },
        }
    }

    /// Records a result and pays its executor.
    pub fn complete_task(&mut self, result: TaskResult, ledger: &mut CreditLedger, now: u64) -> (r:
        Result<(), MarketError>)
        requires
            old(ledger).wf(),
            result.deep_view().success && completion(
                old(self).deep_view(),
                old(ledger).rows(),
                result.deep_view(),
            ) is Ok ==> ledger::recordable(
                old(ledger).rows(),
                result.deep_view().executor,
                -result.deep_view().actual_cost,
            ),
        ensures
            outcome(r) == completion(
                old(self).deep_view(),
                old(ledger).rows(),
                result.deep_view(),
            ),
            final(self).deep_view() == after_completion(
                old(self).deep_view(),
                old(ledger).rows(),
                result.deep_view(),
            ),
            final(ledger).wf(),
            final(ledger).rows() == ledger_after(
                old(self).deep_view(),
                old(ledger).rows(),
                result.deep_view(),
                now,
            ),
    {
        if let Err(e) = self.check_completion(&result) {
            return Err(e);
        }
        let mut task = match self.tasks.get(&result.task_id) {
            None => {
                return Err(MarketError::TaskNotFound(result.task_id));
            },
            Some(task) => task.twin(),
        };
        if result.success {
            task.complete();
        } else {
            task.fail();
        }
        self.tasks.insert(result.task_id.twin(), task);
        if result.success {
            if result.actual_cost > (i64::MAX as u64) {
                if ledger.get(&result.executor).is_none() {
                    return Err(
                        MarketError::SettlementFailed(
                            text::owned("no credit line with this counterparty"),
                        ),
                    );
                }
                return Err(MarketError::SettlementFailed(text::owned("exceeds debt limit")));
            }
            let amount = result.actual_cost as i64;
            match ledger.record(&result.executor, -amount, now) {
                Ok(_) => {},
                Err(message) => {
                    return Err(MarketError::SettlementFailed(text::owned(message)));
                },
            }
        }
        self.results.insert(result.task_id.twin(), result);
        Ok(())
    }

    /// Cancels a task.
    pub fn cancel_task(&mut self, task_id: &str) -> (r: Result<(), MarketError>)
        ensures
            outcome(r) == (if table::holds(old(self).deep_view().tasks, task_id@) {
                Ok(())
            } else {
                Err(MarketErrorView::TaskNotFound(task_id@))
            }),
            final(self).deep_view() == (match table::find(old(self).deep_view().tasks, task_id@) {
                Some(task) => TaskMarketView {
                    tasks: table::put(
                        old(self).deep_view().tasks,
                        task_id@,
                        TaskView { state: TaskState::Cancelled, ..task },
                    ),
                    ..old(self).deep_view()
                },
                None => old(self).deep_view(),
            }),
    {
        let key = text::owned(task_id);
        let mut task = match self.tasks.get(&key) {
            None => {
                return Err(MarketError::TaskNotFound(key));
            },
            Some(task) => task.twin(),
        };
        task.cancel();
        self.tasks.insert(key, task);
        Ok(())
    }

    /// The number of tasks that have not ended.
    pub fn active_count(&self) -> (r: usize)
        ensures
            r == tasks_where(self.deep_view().tasks, |t: TaskView| !ended(t)).len(),
    {
        let ghost keep = |t: TaskView| !ended(t);
        let ghost rows = self.tasks.rows();
        let n = self.tasks.len();
        let mut count: usize = 0;
        let mut i: usize = 0;
        while i < n
            invariant
                i <= n,
                n == rows.len(),
                rows == self.tasks.rows(),
                keep == (|t: TaskView| !ended(t)),
                count <= i,
                count == tasks_where(rows.subrange(0, i as int), keep).len(),
            decreases n - i,
        {
            proof {
                let upto = rows.subrange(0, i + 1);
                assert(upto.drop_last() =~= rows.subrange(0, i as int));
                assert(upto.last() == rows[i as int]);
            }
            let task = self.tasks.value_at(i);
            assert(keep(rows[i as int].1) == !ended(task.deep_view()));
            if !task.is_done() {
                count = count + 1;
            }
            i = i + 1;
        }
        assert(rows.subrange(0, i as int) =~= rows);
        count
    }
}

} // verus!
