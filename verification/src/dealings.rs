//! What the dealings between agents promise: how far credit reaches, which bids
//! and results a market takes and pays for, and which payments are proved.
use crate::credit::{new_line, BilateralCreditView};
use crate::facts::{settlement_valid, SettlementRecordView};
use crate::identity;
use crate::ledger::{after_recording, balance_sum, inbound, outbound, recording};
use crate::manifest::{names, AgentManifestView};
use crate::market::{
    acceptance_verdict, after_acceptance, after_completion, bid_of, bid_verdict, bids_on,
    completion, completion_verdict, ledger_after, payment_failure, tasks_where, wanted,
    MarketErrorView, TaskMarketView,
};
use crate::outside;
use crate::settlement::{
    anchor_valid, anchored_valid, checkpoint_valid, commitment, is_hash_hex, lightning_valid,
    mutual_valid, payment_valid, proof_valid, terms_payload, AnchoredCheckpointView,
    AuthorityAnchorView, AuthorityKind, ExternalPaymentSettlementView, LightningSettlementView,
    MutualCreditSettlementView, SettlementErrorView, SettlementProofView, StateCheckpointView,
};
use crate::table;
use crate::task::{receipt_proves, TaskOfferView, TaskResultView, TaskState, TaskView};
use crate::text;
use vstd::prelude::*;
use vstd::string::*;
use vstd::utf8::encode_utf8;

verus! {

/// A new line owes nothing either way, has seen no trade, and has exactly its
/// limits to give and to take.
pub proof fn lemma_new_line_is_even(
    counterparty: Seq<char>,
    credit_limit: u64,
    debt_limit: u64,
    now: u64,
)
    ensures
        ({
            let line = new_line(counterparty, credit_limit, debt_limit, now);
            &&& line.balance == 0
            &&& line.total_volume == 0
            &&& line.counterparty == counterparty
            &&& line.established_at == now && line.last_activity == now
            &&& line.credit_left() == credit_limit
            &&& line.debt_left() == debt_limit
            &&& line.within_limits()
        }),
{
}

/// Credit can be extended up to what is left of it and no further, and so can
/// debt be taken on.
pub proof fn lemma_room_is_what_is_left(line: BilateralCreditView, amount: u64)
    requires
        line.within_limits(),
    ensures
        line.extends(amount as int) <==> amount <= line.credit_limit - line.balance,
        line.borrows(amount as int) <==> amount <= line.debt_limit + line.balance,
        amount <= line.credit_left() ==> line.extends(amount as int),
        amount <= line.debt_left() ==> line.borrows(amount as int),
        line.extends(amount as int) ==> amount <= line.credit_left(),
        line.borrows(amount as int) ==> amount <= line.debt_left(),
        line.credit_left() == if line.credit_limit - line.balance > u64::MAX {
            u64::MAX as int
        } else {
            line.credit_limit - line.balance
        },
{
}

/// What is paid to me counts for me and what I pay counts against me; the volume
/// grows by the amount either way, and the limits stay.
pub proof fn lemma_trade_moves_balance(line: BilateralCreditView, amount: i64, now: u64)
    requires
        line.countable(amount as int),
    ensures
        ({
            let next = line.recorded(amount as int, now);
            &&& next.balance - line.balance == amount
            &&& amount >= 0 ==> next.total_volume - line.total_volume == amount
            &&& amount < 0 ==> line.total_volume - next.total_volume == amount
            &&& next.last_activity == now
            &&& next.credit_limit == line.credit_limit
            &&& next.debt_limit == line.debt_limit
            &&& next.counterparty == line.counterparty
            &&& next.established_at == line.established_at
        }),
{
}

/// A transaction is refused only without a line or beyond a limit, and within
/// them it goes through and tells the new balance.
pub proof fn lemma_transaction_within_limits_goes_through(
    rows: Seq<(Seq<char>, BilateralCreditView)>,
    counterparty: Seq<char>,
    amount: int,
    now: u64,
)
    requires
        table::distinct(rows),
    ensures
        table::find(rows, counterparty) is None ==> recording(rows, counterparty, amount) is Err
            && after_recording(rows, counterparty, amount, now) == rows,
        table::find(rows, counterparty) matches Some(line) ==> {
            let fits = (amount > 0 ==> line.balance + amount <= line.credit_limit) && (amount < 0
                ==> line.balance + amount >= -line.debt_limit);
            &&& fits ==> recording(rows, counterparty, amount) == Ok::<int, Seq<char>>(
                line.balance + amount,
            )
            &&& fits && line.countable(amount) ==> (table::find(
                after_recording(rows, counterparty, amount, now),
                counterparty,
            ) matches Some(next) && next.balance == line.balance + amount)
            &&& !fits ==> recording(rows, counterparty, amount) is Err && after_recording(
                rows,
                counterparty,
                amount,
                now,
            ) == rows
        },
{
    if let Some(line) = table::find(rows, counterparty) {
        table::lemma_put_find(rows, counterparty, line.recorded(amount, now), counterparty);
    }
}

/// The sum of balances moves by the amount of a transaction.
pub proof fn lemma_sum_moves_with_trade(
    rows: Seq<(Seq<char>, BilateralCreditView)>,
    i: int,
    line: BilateralCreditView,
)
    requires
        0 <= i < rows.len(),
    ensures
        balance_sum(rows.update(i, (rows[i].0, line))) == balance_sum(rows) - rows[i].1.balance
            + line.balance,
    decreases rows.len(),
{
    let next = rows.update(i, (rows[i].0, line));
    if i == rows.len() - 1 {
        assert(next.drop_last() =~= rows.drop_last());
    } else {
        lemma_sum_moves_with_trade(rows.drop_last(), i, line);
        assert(next.drop_last() =~= rows.drop_last().update(i, (rows[i].0, line)));
    }
}

/// Credit is listed for exactly those counterparties with whom some is left, and
/// as much as is left.
pub proof fn lemma_outbound_is_what_is_left(
    rows: Seq<(Seq<char>, BilateralCreditView)>,
    who: Seq<char>,
    left: u64,
)
    ensures
        outbound(rows).contains((who, left)) <==> left > 0 && exists|i: int|
            0 <= i < rows.len() && (#[trigger] rows[i]).0 == who && rows[i].1.credit_left() == left,
    decreases rows.len(),
{
    if rows.len() > 0 {
        let front = rows.drop_last();
        let rest = outbound(front);
        let all = outbound(rows);
        let last = rows.last();
        lemma_outbound_is_what_is_left(front, who, left);
        if exists|i: int|
            0 <= i < front.len() && (#[trigger] front[i]).0 == who && front[i].1.credit_left()
                == left {
            let i = choose|i: int|
                0 <= i < front.len() && (#[trigger] front[i]).0 == who && front[i].1.credit_left()
                    == left;
            assert(rows[i] == front[i]);
        }
        if exists|i: int|
            0 <= i < rows.len() && (#[trigger] rows[i]).0 == who && rows[i].1.credit_left()
                == left {
            let i = choose|i: int|
                0 <= i < rows.len() && (#[trigger] rows[i]).0 == who && rows[i].1.credit_left()
                    == left;
            if i < front.len() {
                assert(front[i] == rows[i]);
            }
        }
        if rest.contains((who, left)) {
            assert(all[rest.index_of((who, left))] == (who, left));
        }
        if all.contains((who, left)) {
            let k = all.index_of((who, left));
            if k < rest.len() {
                assert(rest[k] == (who, left));
            } else {
                assert(rows[rows.len() - 1].0 == who);
            }
        }
        if last.1.credit_left() > 0 {
            assert(all[rest.len() as int] == (last.0, last.1.credit_left()));
        }
    }
}

/// Debt is listed for exactly those counterparties with whom some can still be
/// taken on, and as much as can.
pub proof fn lemma_inbound_is_what_is_left(
    rows: Seq<(Seq<char>, BilateralCreditView)>,
    who: Seq<char>,
    left: u64,
)
    ensures
        inbound(rows).contains((who, left)) <==> left > 0 && exists|i: int|
            0 <= i < rows.len() && (#[trigger] rows[i]).0 == who && rows[i].1.debt_left() == left,
    decreases rows.len(),
{
    if rows.len() > 0 {
        let front = rows.drop_last();
        let rest = inbound(front);
        let all = inbound(rows);
        let last = rows.last();
        lemma_inbound_is_what_is_left(front, who, left);
        if exists|i: int|
            0 <= i < front.len() && (#[trigger] front[i]).0 == who && front[i].1.debt_left()
                == left {
            let i = choose|i: int|
                0 <= i < front.len() && (#[trigger] front[i]).0 == who && front[i].1.debt_left()
                    == left;
            assert(rows[i] == front[i]);
        }
        if exists|i: int|
            0 <= i < rows.len() && (#[trigger] rows[i]).0 == who && rows[i].1.debt_left() == left {
            let i = choose|i: int|
                0 <= i < rows.len() && (#[trigger] rows[i]).0 == who && rows[i].1.debt_left()
                    == left;
            if i < front.len() {
                assert(front[i] == rows[i]);
            }
        }
        if rest.contains((who, left)) {
            assert(all[rest.index_of((who, left))] == (who, left));
        }
        if all.contains((who, left)) {
            let k = all.index_of((who, left));
            if k < rest.len() {
                assert(rest[k] == (who, left));
            } else {
                assert(rows[rows.len() - 1].0 == who);
            }
        }
        if last.1.debt_left() > 0 {
            assert(all[rest.len() as int] == (last.0, last.1.debt_left()));
        }
    }
}

/// A bid is taken exactly when the task is open, the price is within its budget,
/// and the bidder is known to provide what the task requires.
pub proof fn lemma_fit_bid_is_taken(
    v: TaskMarketView,
    agents: Seq<(Seq<char>, AgentManifestView)>,
    bid: TaskOfferView,
)
    ensures
        bid_verdict(v, agents, bid) is Ok <==> (table::find(v.tasks, bid.task_id) matches Some(task)
            && task.state == TaskState::Published && bid.price <= task.max_budget && (table::find(
            agents,
            bid.bidder,
        ) matches Some(agent) && exists|i: int|
            0 <= i < agent.provides.len() && (#[trigger] agent.provides[i]).name
                == task.required_capability)),
{
}

proof fn lemma_first_bid(bids: Seq<TaskOfferView>, bidder: Seq<char>, i: int)
    requires
        0 <= i < bids.len(),
        bids[i].bidder == bidder,
    ensures
        exists|k: int|
            0 <= k <= i && bid_of(bids, bidder) == Some(#[trigger] bids[k]) && bids[k].bidder
                == bidder,
    decreases bids.len(),
{
    if bids[0].bidder == bidder {
        assert(bid_of(bids, bidder) == Some(bids[0]));
    } else {
        let rest = bids.skip(1);
        assert(rest[i - 1] == bids[i]);
        lemma_first_bid(rest, bidder, i - 1);
        let k = choose|k: int|
            0 <= k <= i - 1 && bid_of(rest, bidder) == Some(#[trigger] rest[k]) && rest[k].bidder
                == bidder;
        assert(bids[k + 1] == rest[k]);
    }
}

proof fn lemma_bid_is_there(bids: Seq<TaskOfferView>, bidder: Seq<char>)
    ensures
        bid_of(bids, bidder) is Some ==> exists|i: int|
            0 <= i < bids.len() && (#[trigger] bids[i]).bidder == bidder,
    decreases bids.len(),
{
    if bids.len() > 0 && bids[0].bidder != bidder {
        let rest = bids.skip(1);
        lemma_bid_is_there(rest, bidder);
        if bid_of(rest, bidder) is Some {
            let i = choose|i: int| 0 <= i < rest.len() && (#[trigger] rest[i]).bidder == bidder;
            assert(bids[i + 1].bidder == bidder);
        }
    }
}

/// A bid can be accepted exactly when the agent made one on the task and the task
/// is still open.
pub proof fn lemma_standing_bid_is_accepted(
    v: TaskMarketView,
    task_id: Seq<char>,
    bidder: Seq<char>,
)
    ensures
        acceptance_verdict(v, task_id, bidder) is Ok <==> (table::find(v.tasks, task_id) matches Some(
            task,
        ) && task.state == TaskState::Published) && exists|i: int|
            0 <= i < bids_on(v, task_id).len() && (#[trigger] bids_on(v, task_id)[i]).bidder
                == bidder,
{
    let bids = bids_on(v, task_id);
    lemma_bid_is_there(bids, bidder);
    if exists|i: int| 0 <= i < bids.len() && (#[trigger] bids[i]).bidder == bidder {
        let i = choose|i: int| 0 <= i < bids.len() && (#[trigger] bids[i]).bidder == bidder;
        lemma_first_bid(bids, bidder, i);
    }
}

/// What is accepted is the first bid that the agent made on the task.
pub proof fn lemma_first_bid_is_accepted(
    v: TaskMarketView,
    task_id: Seq<char>,
    bidder: Seq<char>,
    i: int,
)
    requires
        table::distinct(v.accepted_bids),
        table::distinct(v.tasks),
        0 <= i < bids_on(v, task_id).len(),
        bids_on(v, task_id)[i].bidder == bidder,
    ensures
        exists|k: int|
            0 <= k <= i && table::find(
                after_acceptance(v, task_id, bidder).accepted_bids,
                task_id,
            ) == Some(#[trigger] bids_on(v, task_id)[k]) && bids_on(v, task_id)[k].bidder == bidder,
        table::find(after_acceptance(v, task_id, bidder).tasks, task_id) matches Some(task)
            && task.state == TaskState::InProgress && task.assigned_to == Some(bidder),
{
    let bids = bids_on(v, task_id);
    lemma_first_bid(bids, bidder, i);
    let bid = bid_of(bids, bidder)->Some_0;
    table::lemma_put_find(v.accepted_bids, task_id, bid, task_id);
    table::lemma_put_find(
        v.tasks,
        task_id,
        TaskView {
            state: TaskState::InProgress,
            assigned_to: Some(bidder),
            ..table::at(v.tasks, task_id)
        },
        task_id,
    );
    let k = choose|k: int|
        0 <= k <= i && bid_of(bids, bidder) == Some(#[trigger] bids[k]) && bids[k].bidder
            == bidder;
    assert(bids_on(v, task_id)[k] == bid);
}

/// A result is admitted exactly when it comes from the agent that the task is
/// assigned to, costs no more than budget and accepted bid, proves what it claims,
/// and a success shows a receipt for the very command of the task.
pub proof fn lemma_proved_result_is_admitted(v: TaskMarketView, result: TaskResultView)
    ensures
        completion_verdict(v, result) is Ok <==> (table::find(v.tasks, result.task_id) matches Some(
            task,
        ) && task.assigned_to == Some(result.executor) && result.actual_cost <= task.max_budget && (
        table::find(v.accepted_bids, result.task_id) matches Some(bid) ==> result.actual_cost
            <= bid.price) && receipt_proves(result) is Ok && (result.success ==> (
        result.receipt matches Some(receipt) && receipt.command == task.command && receipt.args
            == task.args))),
{
}

/// An admitted success is paid in full where the line to its executor has room
/// for the debt; then, and for an admitted failure, the result is kept. A success
/// that cannot be paid is not kept. Either way the task has ended.
pub proof fn lemma_admitted_success_is_paid(
    v: TaskMarketView,
    rows: Seq<(Seq<char>, BilateralCreditView)>,
    result: TaskResultView,
    now: u64,
)
    requires
        table::distinct(v.tasks),
        table::distinct(v.results),
        table::distinct(rows),
        completion_verdict(v, result) is Ok,
        table::find(rows, result.executor) matches Some(line) ==> line.countable(
            -result.actual_cost,
        ),
    ensures
        ({
            let after = after_completion(v, rows, result);
            let room = table::find(rows, result.executor) matches Some(line) && (result.actual_cost
                == 0 || (line.balance - result.actual_cost >= -line.debt_limit))
                && result.actual_cost <= i64::MAX;
            &&& table::find(after.tasks, result.task_id) matches Some(task) && task.state == (
            if result.success {
                TaskState::Completed
            } else {
                TaskState::Failed
            })
            &&& completion(v, rows, result) is Ok <==> !result.success || room
            &&& !result.success || room ==> table::find(after.results, result.task_id) == Some(
                result,
            )
            &&& result.success && !room ==> after.results == v.results
            &&& result.success && room ==> (table::find(
                ledger_after(v, rows, result, now),
                result.executor,
            ) matches Some(next) && next.balance == table::at(rows, result.executor).balance
                - result.actual_cost)
            &&& !result.success || !room ==> ledger_after(v, rows, result, now) == rows
        }),
{
    let state = if result.success {
        TaskState::Completed
    } else {
        TaskState::Failed
    };
    table::lemma_put_find(
        v.tasks,
        result.task_id,
        TaskView { state, ..table::at(v.tasks, result.task_id) },
        result.task_id,
    );
    table::lemma_put_find(v.results, result.task_id, result, result.task_id);
    if let Some(line) = table::find(rows, result.executor) {
        table::lemma_put_find(
            rows,
            result.executor,
            line.recorded(-result.actual_cost, now),
            result.executor,
        );
    }
}

/// The tasks that pass a test are all those on the market that do.
pub proof fn lemma_every_wanted_task_is_found(
    rows: Seq<(Seq<char>, TaskView)>,
    keep: spec_fn(TaskView) -> bool,
    task: TaskView,
)
    ensures
        tasks_where(rows, keep).contains(task) <==> table::values(rows).contains(task) && keep(task),
    decreases rows.len(),
{
    let every = table::values(rows);
    if rows.len() > 0 {
        let front = rows.drop_last();
        let rest = tasks_where(front, keep);
        let all = tasks_where(rows, keep);
        lemma_every_wanted_task_is_found(front, keep, task);
        let some = table::values(front);
        if some.contains(task) {
            assert(every[some.index_of(task)] == task);
        }
        if every.contains(task) && !some.contains(task) {
            let i = every.index_of(task);
            if i < some.len() {
                assert(some[i] == task);
            }
            assert(task == rows.last().1);
        }
        if rest.contains(task) {
            assert(all[rest.index_of(task)] == task);
        }
        if all.contains(task) {
            let k = all.index_of(task);
            if k < rest.len() {
                assert(rest[k] == task);
            } else {
                assert(every[every.len() - 1] == task);
            }
        }
        if keep(rows.last().1) {
            assert(all[rest.len() as int] == rows.last().1);
        }
    }
}

/// What agents look for among tasks: open ones, and where a capability is named,
/// those that require it.
pub proof fn lemma_wanted_tasks_are_open(capability: Option<Seq<char>>, task: TaskView)
    ensures
        wanted(capability)(task) ==> task.state == TaskState::Published,
        wanted(None)(task) <==> task.state == TaskState::Published,
        capability matches Some(name) ==> (wanted(capability)(task) <==> task.state
            == TaskState::Published && task.required_capability == name),
{
}

/// A checkpoint is well formed exactly when subject and policy are named and every
/// root that it gives is a hash.
pub proof fn lemma_checkpoint_form(v: StateCheckpointView)
    ensures
        checkpoint_valid(v) is Ok <==> !text::blank(v.subject) && !text::blank(v.policy_id) && (
        v.social_root_hex matches Some(s) ==> is_hash_hex(s)) && (v.workspace_root_hex matches Some(
            s,
        ) ==> is_hash_hex(s)) && (v.ledger_root_hex matches Some(s) ==> is_hash_hex(s)),
        text::blank(v.subject) ==> checkpoint_valid(v) == Err::<(), SettlementErrorView>(
            SettlementErrorView::MissingField { field: "subject"@ },
        ),
{
}

/// An anchor is well formed exactly when it commits to a hash and its kind has
/// what it needs: a quorum a threshold that its attestors reach, a chain a place
/// on it, and any other nothing.
pub proof fn lemma_anchor_form(v: AuthorityAnchorView)
    ensures
        anchor_valid(v) is Ok ==> is_hash_hex(v.commitment_hex),
        v.kind == AuthorityKind::CollectiveQuorum ==> (anchor_valid(v) is Ok <==> is_hash_hex(
            v.commitment_hex,
        ) && (v.threshold matches Some(n) && 1 <= n <= v.attestors.len())),
        v.kind == AuthorityKind::Bitcoin || v.kind == AuthorityKind::ExternalChain ==> (
        anchor_valid(v) is Ok <==> is_hash_hex(v.commitment_hex) && (v.locator matches Some(s)
            && !text::blank(s))),
        v.kind != AuthorityKind::CollectiveQuorum && v.kind != AuthorityKind::Bitcoin && v.kind
            != AuthorityKind::ExternalChain ==> (anchor_valid(v) is Ok <==> is_hash_hex(
            v.commitment_hex,
        )),
{
}

/// A mutual credit settlement is complete exactly when it is of a positive amount,
/// names its transaction and carries a signature.
pub proof fn lemma_mutual_form(v: MutualCreditSettlementView)
    ensures
        mutual_valid(v) is Ok <==> v.amount > 0 && !text::blank(v.ledger_tx_id)
            && v.counterparty_signature.len() > 0,
        v.amount == 0 ==> mutual_valid(v) == Err::<(), SettlementErrorView>(
            SettlementErrorView::ZeroAmount { field: "amount"@ },
        ),
{
}

/// An outside payment is good exactly when it is of a positive amount, names asset,
/// payment and recipient, and has as many confirmations as it needs; one on
/// Bitcoin names the payment by a hash.
pub proof fn lemma_payment_form(v: ExternalPaymentSettlementView)
    ensures
        payment_valid(v) is Ok <==> v.amount > 0 && !text::blank(v.asset) && !text::blank(
            v.payment_id,
        ) && !text::blank(v.recipient) && v.confirmations >= v.min_confirmations && (v.authority
            == AuthorityKind::Bitcoin ==> is_hash_hex(v.payment_id)),
{
}

/// More confirmations never hurt a payment.
pub proof fn lemma_confirmations_only_help(
    v: ExternalPaymentSettlementView,
    w: ExternalPaymentSettlementView,
)
    requires
        payment_valid(v) is Ok,
        w == (ExternalPaymentSettlementView { confirmations: w.confirmations, ..v }),
        w.confirmations >= v.confirmations,
    ensures
        payment_valid(w) is Ok,
{
}

/// A Lightning payment is proved exactly by a preimage of its payment hash, and
/// its amount is positive.
pub proof fn lemma_lightning_form(v: LightningSettlementView)
    ensures
        lightning_valid(v) is Ok <==> v.amount_msat > 0 && is_hash_hex(v.payment_hash_hex)
            && is_hash_hex(v.preimage_hex) && outside::hex_text(
            outside::sha256_of(outside::hex_parse(encode_utf8(v.preimage_hex))->Ok_0),
        ) == text::lower(v.payment_hash_hex),
{
}

/// An anchored checkpoint holds exactly when checkpoint and anchor are well formed
/// and the anchor commits to this checkpoint.
pub proof fn lemma_anchored_form(v: AnchoredCheckpointView)
    ensures
        anchored_valid(v) is Ok <==> checkpoint_valid(v.checkpoint) is Ok && anchor_valid(v.anchor)
            is Ok && text::lower(v.anchor.commitment_hex) == commitment(v.checkpoint),
{
}

/// One anchor does not commit to two checkpoints with different commitments.
pub proof fn lemma_anchor_commits_once(v: AnchoredCheckpointView, w: AnchoredCheckpointView)
    requires
        anchored_valid(v) is Ok,
        anchored_valid(w) is Ok,
        v.anchor == w.anchor,
    ensures
        commitment(v.checkpoint) == commitment(w.checkpoint),
{
}

/// A settlement holds exactly when its proof does; one by mutual credit also needs
/// the counterparty's signature on transaction, amount and both parties.
pub proof fn lemma_settlement_form(s: SettlementRecordView)
    ensures
        settlement_valid(s) is Ok ==> proof_valid(s.proof_of_payment) is Ok,
        match s.proof_of_payment {
            SettlementProofView::Sovereign => settlement_valid(s) is Ok,
            SettlementProofView::MutualCredit(p) => settlement_valid(s) is Ok <==> mutual_valid(p)
                is Ok && identity::did_accepts(
                p.counterparty,
                terms_payload(p.ledger_tx_id, s.amount, s.payer, s.payee),
                p.counterparty_signature,
            ) is Ok,
            SettlementProofView::ExternalPayment(p) => settlement_valid(s) is Ok <==> payment_valid(
                p,
            ) is Ok,
            SettlementProofView::Lightning(p) => settlement_valid(s) is Ok <==> lightning_valid(p)
                is Ok,
            SettlementProofView::AnchoredCheckpoint(p) => settlement_valid(s) is Ok
                <==> anchored_valid(p) is Ok,
        },
{
}

/// Why a bid is not taken: the first of task, state, budget and capability that
/// fails decides.
pub proof fn lemma_why_bid_is_refused(
    v: TaskMarketView,
    agents: Seq<(Seq<char>, AgentManifestView)>,
    bid: TaskOfferView,
)
    ensures
        match table::find(v.tasks, bid.task_id) {
            None => bid_verdict(v, agents, bid) == Err::<(), MarketErrorView>(
                MarketErrorView::TaskNotFound(bid.task_id),
            ),
            Some(task) => {
                &&& task.state != TaskState::Published ==> bid_verdict(v, agents, bid) == Err::<
                    (),
                    MarketErrorView,
                >(MarketErrorView::TaskNotOpen)
                &&& task.state == TaskState::Published && bid.price > task.max_budget
                    ==> bid_verdict(v, agents, bid) == Err::<(), MarketErrorView>(
                    MarketErrorView::BidExceedsBudget,
                )
                &&& task.state == TaskState::Published && bid.price <= task.max_budget && !(
                table::find(agents, bid.bidder) matches Some(agent) && names(
                    agent.provides,
                    task.required_capability,
                )) ==> bid_verdict(v, agents, bid) == Err::<(), MarketErrorView>(
                    MarketErrorView::MissingCapability,
                )
            },
        },
{
}

/// Why a bid is not accepted: that it is missing comes before all that is wrong
/// with the task.
pub proof fn lemma_why_acceptance_is_refused(
    v: TaskMarketView,
    task_id: Seq<char>,
    bidder: Seq<char>,
)
    ensures
        (forall|i: int|
            0 <= i < bids_on(v, task_id).len() ==> (#[trigger] bids_on(v, task_id)[i]).bidder
                != bidder) ==> acceptance_verdict(v, task_id, bidder) == Err::<
            (),
            MarketErrorView,
        >(MarketErrorView::BidNotFound),
        (exists|i: int|
            0 <= i < bids_on(v, task_id).len() && (#[trigger] bids_on(v, task_id)[i]).bidder
                == bidder) ==> match table::find(v.tasks, task_id) {
            None => acceptance_verdict(v, task_id, bidder) == Err::<(), MarketErrorView>(
                MarketErrorView::TaskNotFound(task_id),
            ),
            Some(task) => task.state != TaskState::Published ==> acceptance_verdict(
                v,
                task_id,
                bidder,
            ) == Err::<(), MarketErrorView>(MarketErrorView::TaskNotOpen),
        },
{
    let bids = bids_on(v, task_id);
    lemma_bid_is_there(bids, bidder);
    if exists|i: int| 0 <= i < bids.len() && (#[trigger] bids[i]).bidder == bidder {
        let i = choose|i: int| 0 <= i < bids.len() && (#[trigger] bids[i]).bidder == bidder;
        lemma_first_bid(bids, bidder, i);
    }
}

/// Why a result is not admitted: the first of task, assignment, executor, budget,
/// bid, receipt and command that fails decides.
pub proof fn lemma_why_result_is_refused(v: TaskMarketView, result: TaskResultView)
    ensures
        table::find(v.tasks, result.task_id) is None ==> completion_verdict(v, result) == Err::<
            (),
            MarketErrorView,
        >(MarketErrorView::TaskNotFound(result.task_id)),
        table::find(v.tasks, result.task_id) matches Some(task) ==> {
            let over_bid = table::find(v.accepted_bids, result.task_id) matches Some(bid)
                && result.actual_cost > bid.price;
            let mine = task.assigned_to == Some(result.executor);
            let affordable = mine && result.actual_cost <= task.max_budget && !over_bid;
            &&& task.assigned_to is None ==> completion_verdict(v, result) == Err::<
                (),
                MarketErrorView,
            >(MarketErrorView::TaskNotAssigned)
            &&& task.assigned_to is Some && !mine ==> completion_verdict(v, result) == Err::<
                (),
                MarketErrorView,
            >(MarketErrorView::ResultExecutorMismatch)
            &&& mine && result.actual_cost > task.max_budget ==> completion_verdict(v, result)
                == Err::<(), MarketErrorView>(MarketErrorView::ResultExceedsBudget)
            &&& mine && result.actual_cost <= task.max_budget && over_bid ==> completion_verdict(
                v,
                result,
            ) == Err::<(), MarketErrorView>(MarketErrorView::ResultExceedsAcceptedBid)
            &&& affordable && result.success && result.receipt is None ==> completion_verdict(
                v,
                result,
            ) == Err::<(), MarketErrorView>(MarketErrorView::MissingExecutionReceipt)
            &&& affordable && !(result.success && result.receipt is None) ==> (receipt_proves(
                result,
            ) matches Err(e) ==> completion_verdict(v, result) == Err::<(), MarketErrorView>(
                MarketErrorView::InvalidExecutionReceipt(e),
            ))
        },
{
}

/// Why a transaction is refused: without a line, for want of one; beyond a limit,
/// for that limit.
pub proof fn lemma_why_transaction_is_refused(
    rows: Seq<(Seq<char>, BilateralCreditView)>,
    counterparty: Seq<char>,
    amount: int,
)
    ensures
        table::find(rows, counterparty) is None ==> recording(rows, counterparty, amount) == Err::<
            int,
            Seq<char>,
        >("no credit line with this counterparty"@),
        table::find(rows, counterparty) matches Some(line) ==> {
            &&& amount > 0 && line.balance + amount > line.credit_limit ==> recording(
                rows,
                counterparty,
                amount,
            ) == Err::<int, Seq<char>>("exceeds credit limit"@)
            &&& amount < 0 && line.balance + amount < -line.debt_limit ==> recording(
                rows,
                counterparty,
                amount,
            ) == Err::<int, Seq<char>>("exceeds debt limit"@)
        },
{
}

/// Why a payment fails: without a line, for want of one, and else for the debt.
pub proof fn lemma_why_payment_fails(
    rows: Seq<(Seq<char>, BilateralCreditView)>,
    executor: Seq<char>,
    cost: u64,
)
    ensures
        table::find(rows, executor) is None ==> payment_failure(rows, executor, cost) == Some(
            "no credit line with this counterparty"@,
        ),
        table::find(rows, executor) matches Some(line) ==> {
            let room = cost == 0 || line.balance - cost >= -line.debt_limit;
            &&& cost > i64::MAX || !room ==> payment_failure(rows, executor, cost) == Some(
                "exceeds debt limit"@,
            )
            &&& cost <= i64::MAX && room ==> payment_failure(rows, executor, cost) is None
        },
{
}

/// A task has ended once it is completed, failed or cancelled, and is open only
/// while published.
pub proof fn lemma_when_task_has_ended(t: TaskView)
    ensures
        crate::task::ended(t) <==> t.state == TaskState::Completed || t.state == TaskState::Failed
            || t.state == TaskState::Cancelled,
        crate::task::open_for_bids(t) ==> !crate::task::ended(t),
        crate::task::open_for_bids(t) <==> t.state == TaskState::Published,
{
}

} // verus!
