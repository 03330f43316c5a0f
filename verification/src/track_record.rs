//! What the task board promises: which results count for an agent, whose claim,
//! acceptance or cancellation prevails, and in what order offers stand.
use crate::facts::{claim_id, TaskResultClaimView};
use crate::order::{self, SortKey};
use crate::outside;
use crate::table;
use crate::task::{
    attestation_signed, receipt_mark, receipt_signed, spec_id, ExecutionAttestationView,
    ExecutionReceiptView, TaskAcceptanceView, TaskCancellationView, TaskOfferView, TaskResultView,
    TaskSpecView, TaskState, TaskView,
};
use crate::task_market::{
    acceptable, acceptance_key, adoptable, adopted_claim, agrees, attestation_key, attestation_mark,
    attested, attests_task, by_acceptance, by_attestation, by_cancellation, by_capability,
    by_claim_time, by_latest, by_observation, by_price, cancellable, cancellation_key, evidence,
    finished, offers_on, shown_names, shows, shows_capability, support, verified_capabilities,
    with_acceptance, with_attestation, with_cancellation, with_claim, with_known_acceptance,
    with_known_cancellation, with_offer, with_result, with_task, TaskMarketEffectView,
    TaskMarketProjectionView,
};
use crate::text;
use vstd::prelude::*;
use vstd::utf8::encode_utf8;

verus! {

/// Whether a result shows that an agent has a capability: the agent succeeded
/// on a task that asked for it and was assigned to the agent, and signed a receipt
/// for the command and arguments of that task.
pub open spec fn demonstrates(
    v: TaskMarketProjectionView,
    agent: Seq<char>,
    name: Seq<char>,
    r: TaskResultView,
) -> bool {
    &&& r.executor == agent
    &&& r.success
    &&& table::find(v.tasks, r.task_id) matches Some(task) && task.required_capability == name
        && task.assigned_to == Some(agent) && (r.receipt matches Some(receipt) && receipt.command
        == task.command && receipt.args == task.args && receipt_signed(receipt) is Ok)
}

/// Results that show that an agent has a capability.
pub open spec fn demonstrations(v: TaskMarketProjectionView, agent: Seq<char>, name: Seq<char>) -> spec_fn(
    TaskResultView,
) -> bool {
    |r: TaskResultView| demonstrates(v, agent, name, r)
}

proof fn lemma_demonstrates(
    v: TaskMarketProjectionView,
    agent: Seq<char>,
    name: Seq<char>,
    r: TaskResultView,
)
    ensures
        demonstrates(v, agent, name, r) <==> shows_capability(v, agent, name)(r),
        shows(v, agent, r) <==> table::holds(v.tasks, r.task_id) && demonstrates(
            v,
            agent,
            table::at(v.tasks, r.task_id).required_capability,
            r,
        ),
{
}

proof fn lemma_shown_names(
    v: TaskMarketProjectionView,
    agent: Seq<char>,
    rows: Seq<(Seq<char>, TaskResultView)>,
    name: Seq<char>,
)
    ensures
        shown_names(v, agent, rows).contains(name) <==> exists|i: int|
            0 <= i < rows.len() && demonstrates(v, agent, name, (#[trigger] rows[i]).1),
        shown_names(v, agent, rows).no_duplicates(),
    decreases rows.len(),
{
    if rows.len() > 0 {
        let front = rows.drop_last();
        let rest = shown_names(v, agent, front);
        let all = shown_names(v, agent, rows);
        let r = rows.last().1;
        lemma_shown_names(v, agent, front, name);
        lemma_demonstrates(v, agent, name, r);
        if shows(v, agent, r) {
            table::lemma_joined_contains(
                rest,
                table::at(v.tasks, r.task_id).required_capability,
                name,
            );
        }
        if exists|i: int| 0 <= i < front.len() && demonstrates(
            v,
            agent,
            name,
            (#[trigger] front[i]).1,
        ) {
            let i = choose|i: int|
                0 <= i < front.len() && demonstrates(v, agent, name, (#[trigger] front[i]).1);
            assert(rows[i] == front[i]);
        }
        if exists|i: int| 0 <= i < rows.len() && demonstrates(
            v,
            agent,
            name,
            (#[trigger] rows[i]).1,
        ) {
            let i = choose|i: int|
                0 <= i < rows.len() && demonstrates(v, agent, name, (#[trigger] rows[i]).1);
            if i < front.len() {
                assert(front[i] == rows[i]);
            }
        }
        if demonstrates(v, agent, name, r) {
            assert(rows[rows.len() - 1].1 == r);
        }
    }
}

/// What the evidence for a capability says: it is dated by the latest execution
/// that demonstrates the capability, and names the task of an execution that ended
/// then, the first of them in the order of texts.
pub proof fn lemma_evidence_is_latest(
    v: TaskMarketProjectionView,
    agent: Seq<char>,
    name: Seq<char>,
    r: TaskResultView,
)
    requires
        table::values(v.task_results).contains(r),
        demonstrates(v, agent, name, r),
    ensures
        ({
            let c = evidence(v, agent, name);
            &&& finished(r) <= c.latest_observed_at
            &&& r.receipt->Some_0.finished_at <= c.latest_observed_at
            &&& finished(r) == c.latest_observed_at ==> text::text_le(c.latest_task_id, r.task_id)
            &&& exists|best: TaskResultView| #[trigger]
                table::values(v.task_results).contains(best) && demonstrates(v, agent, name, best)
                    && best.receipt->Some_0.finished_at == c.latest_observed_at && best.task_id
                    == c.latest_task_id
        }),
{
    let keep = shows_capability(v, agent, name);
    let all = order::listed(v.task_results, keep, by_latest());
    order::lemma_first_listed(v.task_results, keep, by_latest());
    lemma_demonstrates(v, agent, name, r);
    assert(order::first(all) is Some);
    let best = all[0];
    lemma_demonstrates(v, agent, name, best);
    let (x, y) = (by_latest()(best), by_latest()(r));
    assert(order::key_le(x, y));
    order::lemma_key_le_parts(x, y);
    if finished(r) == finished(best) {
        order::lemma_key_le_parts(x.drop_first(), y.drop_first());
    }
    assert(table::values(v.task_results).contains(best));
}

proof fn lemma_entry(v: TaskMarketProjectionView, agent: Seq<char>, k: int) -> (r: TaskResultView)
    requires
        0 <= k < verified_capabilities(v, agent).len(),
    ensures
        table::values(v.task_results).contains(r),
        demonstrates(v, agent, verified_capabilities(v, agent)[k].name, r),
        verified_capabilities(v, agent)[k] == evidence(
            v,
            agent,
            verified_capabilities(v, agent)[k].name,
        ),
{
    let names = shown_names(v, agent, v.task_results);
    let each = Seq::new(names.len(), |i: int| evidence(v, agent, names[i]));
    let all = verified_capabilities(v, agent);
    let c = all[k];
    assert(all.contains(c));
    order::lemma_sorted_contains(each, by_capability(), c);
    let i = each.index_of(c);
    assert(c == evidence(v, agent, names[i]));
    assert(names.contains(names[i]));
    lemma_shown_names(v, agent, v.task_results, names[i]);
    let j = choose|j: int|
        0 <= j < v.task_results.len() && demonstrates(
            v,
            agent,
            names[i],
            (#[trigger] v.task_results[j]).1,
        );
    let r = v.task_results[j].1;
    assert(table::values(v.task_results)[j] == r);
    r
}

/// Every verified capability rests on a result that demonstrates it, and is
/// dated by the latest of these.
pub proof fn lemma_verified_capability_is_latest(
    v: TaskMarketProjectionView,
    agent: Seq<char>,
    k: int,
)
    requires
        0 <= k < verified_capabilities(v, agent).len(),
    ensures
        ({
            let c = verified_capabilities(v, agent)[k];
            &&& forall|r: TaskResultView| #[trigger]
                table::values(v.task_results).contains(r) && demonstrates(v, agent, c.name, r)
                    ==> finished(r) <= c.latest_observed_at
            &&& exists|r: TaskResultView| #[trigger]
                table::values(v.task_results).contains(r) && demonstrates(v, agent, c.name, r)
                    && r.receipt->Some_0.finished_at == c.latest_observed_at && r.task_id
                    == c.latest_task_id
        }),
{
    let c = verified_capabilities(v, agent)[k];
    let some = lemma_entry(v, agent, k);
    lemma_evidence_is_latest(v, agent, c.name, some);
    assert forall|r: TaskResultView| #[trigger]
        table::values(v.task_results).contains(r) && demonstrates(
            v,
            agent,
            c.name,
            r,
        ) implies finished(r) <= c.latest_observed_at by {
        lemma_evidence_is_latest(v, agent, c.name, r);
    }
}

/// Every capability that some result demonstrates is verified.
pub proof fn lemma_demonstrated_is_verified(
    v: TaskMarketProjectionView,
    agent: Seq<char>,
    name: Seq<char>,
    r: TaskResultView,
)
    requires
        table::values(v.task_results).contains(r),
        demonstrates(v, agent, name, r),
    ensures
        exists|k: int|
            0 <= k < verified_capabilities(v, agent).len() && (#[trigger] verified_capabilities(
                v,
                agent,
            )[k]).name == name,
{
    let names = shown_names(v, agent, v.task_results);
    let each = Seq::new(names.len(), |i: int| evidence(v, agent, names[i]));
    let all = verified_capabilities(v, agent);
    let j = table::values(v.task_results).index_of(r);
    assert(demonstrates(v, agent, name, v.task_results[j].1));
    lemma_shown_names(v, agent, v.task_results, name);
    let i = names.index_of(name);
    let c = each[i];
    assert(each.contains(c));
    order::lemma_sorted_contains(each, by_capability(), c);
    let k = all.index_of(c);
    assert(all[k].name == name);
}

/// A capability is verified by as many tasks as there are results that
/// demonstrate it, of which some or all were attested.
pub proof fn lemma_verified_tasks_are_counted(
    v: TaskMarketProjectionView,
    agent: Seq<char>,
    k: int,
)
    requires
        0 <= k < verified_capabilities(v, agent).len(),
        v.task_results.len() <= usize::MAX,
    ensures
        ({
            let c = verified_capabilities(v, agent)[k];
            &&& c.successful_tasks == table::values(v.task_results).filter(
                demonstrations(v, agent, c.name),
            ).len()
            &&& 1 <= c.successful_tasks
            &&& c.independently_attested_tasks <= c.successful_tasks
        }),
{
    let c = verified_capabilities(v, agent)[k];
    let some = lemma_entry(v, agent, k);
    let keep = shows_capability(v, agent, c.name);
    let plain = demonstrations(v, agent, c.name);
    assert forall|r: TaskResultView| #[trigger] keep(r) == plain(r) by {
        lemma_demonstrates(v, agent, c.name, r);
    }
    assert(keep =~= plain);
    order::lemma_listed(v.task_results, keep, by_latest());
    let all = order::listed(v.task_results, keep, by_latest());
    assert(all.contains(some));
    all.lemma_filter_len(attested(v));
    table::values(v.task_results).lemma_filter_len(keep);
}

/// Whether an acceptance can take effect: the publisher of a task that is still
/// open accepts an offer that stands, at its price.
pub open spec fn may_accept(
    v: TaskMarketProjectionView,
    task_id: Seq<char>,
    a: TaskAcceptanceView,
) -> bool {
    &&& table::values(v.task_acceptances).contains(a)
    &&& a.task_id == task_id
    &&& table::find(v.tasks, task_id) matches Some(task) && task.state == TaskState::Published
        && task.publisher == a.publisher
    &&& table::find(v.task_offers, task_id) matches Some(offers) && exists|i: int|
        0 <= i < offers.len() && (#[trigger] offers[i]).bidder == a.bidder && offers[i].price
            == a.price
}

proof fn lemma_may_accept(v: TaskMarketProjectionView, task_id: Seq<char>, a: TaskAcceptanceView)
    ensures
        may_accept(v, task_id, a) <==> table::values(v.task_acceptances).contains(a) && acceptable(
            v,
            task_id,
        )(a),
{
}

proof fn lemma_assignment_stays(v: TaskMarketProjectionView, task_id: Seq<char>)
    requires
        table::distinct(v.tasks),
        table::holds(v.tasks, task_id),
    ensures
        table::distinct(with_result(v, task_id).0.tasks),
        table::holds(with_result(v, task_id).0.tasks, task_id),
        table::at(with_result(v, task_id).0.tasks, task_id).assigned_to == table::at(
            v.tasks,
            task_id,
        ).assigned_to,
        table::at(v.tasks, task_id).state != TaskState::Published ==> table::at(
            with_result(v, task_id).0.tasks,
            task_id,
        ).state != TaskState::Published,
{
    if let Some(claim) = adopted_claim(v, task_id) {
        let state = if claim.result.success {
            TaskState::Completed
        } else {
            TaskState::Failed
        };
        table::lemma_put_find(
            v.tasks,
            task_id,
            TaskView { state, ..table::at(v.tasks, task_id) },
            task_id,
        );
    }
}

/// Of the acceptances that can take effect the earliest does: its bidder is
/// assigned and the task is no longer open. Without one nothing changes.
pub proof fn lemma_earliest_acceptance_assigns(v: TaskMarketProjectionView, task_id: Seq<char>)
    requires
        table::distinct(v.tasks),
    ensures
        (forall|a: TaskAcceptanceView| !#[trigger] may_accept(v, task_id, a)) ==> with_acceptance(
            v,
            task_id,
        ) == (v, Seq::<TaskMarketEffectView>::empty()),
        (exists|a: TaskAcceptanceView| #[trigger] may_accept(v, task_id, a)) ==> exists|
            a: TaskAcceptanceView,
        | #[trigger]
            may_accept(v, task_id, a) && (forall|b: TaskAcceptanceView| #[trigger]
                may_accept(v, task_id, b) ==> a.accepted_at <= b.accepted_at) && (table::find(
                with_acceptance(v, task_id).0.tasks,
                task_id,
            ) matches Some(task) && task.assigned_to == Some(a.bidder) && task.state
                != TaskState::Published),
{
    let keep = acceptable(v, task_id);
    order::lemma_first_listed(v.task_acceptances, keep, by_acceptance());
    match order::first(order::listed(v.task_acceptances, keep, by_acceptance())) {
        None => {
            if exists|a: TaskAcceptanceView| #[trigger] may_accept(v, task_id, a) {
                let a = choose|a: TaskAcceptanceView| #[trigger] may_accept(v, task_id, a);
                lemma_may_accept(v, task_id, a);
            }
        },
        Some(a) => {
            lemma_may_accept(v, task_id, a);
            assert forall|b: TaskAcceptanceView| #[trigger]
                may_accept(v, task_id, b) implies a.accepted_at <= b.accepted_at by {
                lemma_may_accept(v, task_id, b);
                order::lemma_key_le_parts(by_acceptance()(a), by_acceptance()(b));
            }
            let task = TaskView {
                state: TaskState::InProgress,
                assigned_to: Some(a.bidder),
                ..table::at(v.tasks, task_id)
            };
            let next = TaskMarketProjectionView {
                tasks: table::put(v.tasks, task_id, task),
                ..v
            };
            table::lemma_put_find(v.tasks, task_id, task, task_id);
            lemma_assignment_stays(next, task_id);
            assert(may_accept(v, task_id, a));
        },
    }
}

/// Whether a cancellation can take effect: it is the publisher's, of a task that
/// was neither completed nor failed nor cancelled before.
pub open spec fn may_cancel(
    v: TaskMarketProjectionView,
    task_id: Seq<char>,
    c: TaskCancellationView,
) -> bool {
    &&& table::values(v.task_cancellations).contains(c)
    &&& c.task_id == task_id
    &&& table::find(v.tasks, task_id) matches Some(task) && task.publisher == c.publisher
        && task.state != TaskState::Completed && task.state != TaskState::Failed && task.state
        != TaskState::Cancelled
}

/// A task is cancelled exactly when its publisher said so before it ended; all
/// else of the task stays as it was.
pub proof fn lemma_publisher_cancels(v: TaskMarketProjectionView, task_id: Seq<char>)
    requires
        table::distinct(v.tasks),
    ensures
        (forall|c: TaskCancellationView| !#[trigger] may_cancel(v, task_id, c))
            ==> with_cancellation(v, task_id) == v,
        (exists|c: TaskCancellationView| #[trigger] may_cancel(v, task_id, c)) ==> table::find(
            with_cancellation(v, task_id).tasks,
            task_id,
        ) == Some(TaskView { state: TaskState::Cancelled, ..table::at(v.tasks, task_id) }),
{
    let keep = cancellable(v, task_id);
    order::lemma_first_listed(v.task_cancellations, keep, by_cancellation());
    match order::first(order::listed(v.task_cancellations, keep, by_cancellation())) {
        None => {
            if exists|c: TaskCancellationView| #[trigger] may_cancel(v, task_id, c) {
                let c = choose|c: TaskCancellationView| #[trigger] may_cancel(v, task_id, c);
                assert(keep(c));
            }
        },
        Some(c) => {
            assert(may_cancel(v, task_id, c));
            table::lemma_put_find(
                v.tasks,
                task_id,
                TaskView { state: TaskState::Cancelled, ..table::at(v.tasks, task_id) },
                task_id,
            );
        },
    }
}

/// Whether a claim can become the result of a task: it is by the agent that the
/// task is assigned to, the task is neither open nor cancelled, a receipt is for
/// the command and arguments of the task, and a success has a receipt.
pub open spec fn may_adopt(
    v: TaskMarketProjectionView,
    task_id: Seq<char>,
    c: TaskResultClaimView,
) -> bool {
    &&& table::values(v.task_result_claims).contains(c)
    &&& c.result.task_id == task_id
    &&& table::find(v.tasks, task_id) matches Some(task) && task.assigned_to == Some(
        c.result.executor,
    ) && task.state != TaskState::Published && task.state != TaskState::Cancelled && (
    c.result.receipt matches Some(receipt) ==> receipt.command == task.command && receipt.args
        == task.args)
    &&& c.result.success ==> c.result.receipt is Some
}

/// The earliest claim that can become the result of a task does, unless the task
/// has one; without such a claim nothing changes.
pub proof fn lemma_earliest_claim_is_adopted(v: TaskMarketProjectionView, task_id: Seq<char>)
    requires
        table::distinct(v.tasks),
        table::distinct(v.task_results),
        !v.applied_task_results.contains(task_id),
    ensures
        (forall|c: TaskResultClaimView| !#[trigger] may_adopt(v, task_id, c)) ==> with_result(
            v,
            task_id,
        ) == (v, Seq::<TaskMarketEffectView>::empty()),
        (exists|c: TaskResultClaimView| #[trigger] may_adopt(v, task_id, c)) ==> exists|
            c: TaskResultClaimView,
        | #[trigger]
            may_adopt(v, task_id, c) && (forall|d: TaskResultClaimView| #[trigger]
                may_adopt(v, task_id, d) ==> c.timestamp <= d.timestamp) && table::find(
                with_result(v, task_id).0.task_results,
                task_id,
            ) == Some(c.result) && (table::find(with_result(v, task_id).0.tasks, task_id) matches Some(
                task,
            ) && task.state == if c.result.success {
                TaskState::Completed
            } else {
                TaskState::Failed
            }),
{
    let keep = adoptable(v, task_id);
    order::lemma_first_listed(v.task_result_claims, keep, by_claim_time());
    match adopted_claim(v, task_id) {
        None => {
            if exists|c: TaskResultClaimView| #[trigger] may_adopt(v, task_id, c) {
                let c = choose|c: TaskResultClaimView| #[trigger] may_adopt(v, task_id, c);
                assert(keep(c));
            }
        },
        Some(c) => {
            assert(may_adopt(v, task_id, c));
            assert forall|d: TaskResultClaimView| #[trigger]
                may_adopt(v, task_id, d) implies c.timestamp <= d.timestamp by {
                assert(keep(d));
                order::lemma_key_le_parts(by_claim_time()(c), by_claim_time()(d));
            }
            let state = if c.result.success {
                TaskState::Completed
            } else {
                TaskState::Failed
            };
            let task = TaskView { state, ..table::at(v.tasks, task_id) };
            table::lemma_put_find(v.tasks, task_id, task, task_id);
            table::lemma_put_find(v.task_results, task_id, c.result, task_id);
        },
    }
}

/// The rest of a board where one task is looked at: every other task and every
/// other result is as it was.
pub open spec fn else_alike(
    v: TaskMarketProjectionView,
    w: TaskMarketProjectionView,
    task_id: Seq<char>,
) -> bool {
    &&& table::distinct(w.tasks)
    &&& table::distinct(w.task_results)
    &&& forall|other: Seq<char>|
        other != task_id ==> #[trigger] table::find(w.tasks, other) == table::find(v.tasks, other)
    &&& forall|other: Seq<char>|
        other != task_id ==> #[trigger] table::find(w.task_results, other) == table::find(
            v.task_results,
            other,
        )
}

proof fn lemma_result_apart(v: TaskMarketProjectionView, task_id: Seq<char>)
    requires
        table::distinct(v.tasks),
        table::distinct(v.task_results),
    ensures
        else_alike(v, with_result(v, task_id).0, task_id),
{
    if let Some(claim) = adopted_claim(v, task_id) {
        let state = if claim.result.success {
            TaskState::Completed
        } else {
            TaskState::Failed
        };
        let task = TaskView { state, ..table::at(v.tasks, task_id) };
        let w = with_result(v, task_id).0;
        table::lemma_put_find(v.tasks, task_id, task, task_id);
        table::lemma_put_find(v.task_results, task_id, claim.result, task_id);
        assert forall|other: Seq<char>| other != task_id implies #[trigger] table::find(
            w.tasks,
            other,
        ) == table::find(v.tasks, other) by {
            table::lemma_put_find(v.tasks, task_id, task, other);
        }
        assert forall|other: Seq<char>| other != task_id implies #[trigger] table::find(
            w.task_results,
            other,
        ) == table::find(v.task_results, other) by {
            table::lemma_put_find(v.task_results, task_id, claim.result, other);
        }
    }
}

proof fn lemma_put_apart(v: TaskMarketProjectionView, task_id: Seq<char>, task: TaskView)
    requires
        table::distinct(v.tasks),
        table::distinct(v.task_results),
    ensures
        else_alike(
            v,
            TaskMarketProjectionView { tasks: table::put(v.tasks, task_id, task), ..v },
            task_id,
        ),
{
    table::lemma_put_find(v.tasks, task_id, task, task_id);
    assert forall|other: Seq<char>| other != task_id implies #[trigger] table::find(
        table::put(v.tasks, task_id, task),
        other,
    ) == table::find(v.tasks, other) by {
        table::lemma_put_find(v.tasks, task_id, task, other);
    }
}

proof fn lemma_decisions_apart(v: TaskMarketProjectionView, task_id: Seq<char>)
    requires
        table::distinct(v.tasks),
        table::distinct(v.task_results),
    ensures
        else_alike(v, crate::task_market::with_decisions(v, task_id).0, task_id),
{
    let accepted = with_acceptance(v, task_id).0;
    if let Some(a) = order::first(
        order::listed(v.task_acceptances, acceptable(v, task_id), by_acceptance()),
    ) {
        let task = TaskView {
            state: TaskState::InProgress,
            assigned_to: Some(a.bidder),
            ..table::at(v.tasks, task_id)
        };
        lemma_put_apart(v, task_id, task);
        let next = TaskMarketProjectionView { tasks: table::put(v.tasks, task_id, task), ..v };
        lemma_result_apart(next, task_id);
    }
    assert(else_alike(v, accepted, task_id));
    lemma_put_apart(
        accepted,
        task_id,
        TaskView { state: TaskState::Cancelled, ..table::at(accepted.tasks, task_id) },
    );
}

/// What happens to one task leaves every other task, and its result, as it was.
pub proof fn lemma_tasks_stand_apart(
    v: TaskMarketProjectionView,
    task: TaskSpecView,
    offer: TaskOfferView,
    a: TaskAcceptanceView,
    c: TaskCancellationView,
    result: TaskResultView,
    timestamp: u64,
)
    requires
        table::distinct(v.tasks),
        table::distinct(v.task_results),
    ensures
        else_alike(v, with_task(v, task).0, spec_id(task)),
        else_alike(v, with_offer(v, offer).0, offer.task_id),
        else_alike(v, with_known_acceptance(v, a).0, a.task_id),
        else_alike(v, with_known_cancellation(v, c), c.task_id),
        else_alike(v, with_claim(v, result, timestamp).0, result.task_id),
{
    let id = spec_id(task);
    let made = crate::task::task_of(task);
    let published = TaskMarketProjectionView { tasks: table::put_new(v.tasks, id, made), ..v };
    lemma_put_apart(v, id, made);
    assert(else_alike(v, published, id));
    lemma_decisions_apart(published, id);
    lemma_result_apart(crate::task_market::with_decisions(published, id).0, id);
    let offered = TaskMarketProjectionView {
        task_offers: table::put(
            v.task_offers,
            offer.task_id,
            order::sort_by_key(offers_on(v, offer.task_id).push(offer), by_price()),
        ),
        ..v
    };
    lemma_decisions_apart(offered, offer.task_id);
    let accepted = TaskMarketProjectionView {
        task_acceptances: table::put_new(v.task_acceptances, (a.task_id, acceptance_key(a)), a),
        ..v
    };
    lemma_decisions_apart(accepted, a.task_id);
    let told = TaskMarketProjectionView {
        task_cancellations: table::put_new(
            v.task_cancellations,
            (c.task_id, cancellation_key(c)),
            c,
        ),
        ..v
    };
    lemma_put_apart(
        told,
        c.task_id,
        TaskView { state: TaskState::Cancelled, ..table::at(v.tasks, c.task_id) },
    );
    let claimed = TaskMarketProjectionView {
        task_result_claims: table::put(
            v.task_result_claims,
            (result.task_id, claim_id(result)),
            TaskResultClaimView { result, timestamp },
        ),
        ..v
    };
    lemma_result_apart(claimed, result.task_id);
}

/// The first offer of a bidder stands and a new bidder's is added, the cheapest
/// first.
pub proof fn lemma_offers_stand_by_price(v: TaskMarketProjectionView, offer: TaskOfferView)
    requires
        table::distinct(v.task_offers),
    ensures
        ({
            let before = offers_on(v, offer.task_id);
            let after = offers_on(with_offer(v, offer).0, offer.task_id);
            let known = exists|i: int|
                0 <= i < before.len() && (#[trigger] before[i]).bidder == offer.bidder;
            &&& known ==> after == before
            &&& !known ==> after.to_multiset() == before.push(offer).to_multiset()
            &&& !known ==> forall|i: int, j: int|
                0 <= i < j < after.len() ==> (#[trigger] after[i]).price <= (
                #[trigger] after[j]).price
            &&& !known ==> forall|i: int, j: int|
                0 <= i < j < after.len() && (#[trigger] after[i]).price == (
                #[trigger] after[j]).price ==> text::text_le(after[i].bidder, after[j].bidder)
        }),
{
    let before = offers_on(v, offer.task_id);
    let sorted = order::sort_by_key(before.push(offer), by_price());
    let next = TaskMarketProjectionView {
        task_offers: table::put(v.task_offers, offer.task_id, sorted),
        ..v
    };
    table::lemma_put_find(v.task_offers, offer.task_id, sorted, offer.task_id);
    lemma_offers_kept(next, offer.task_id);
    order::lemma_sort_by_key(before.push(offer), by_price());
    assert forall|i: int, j: int| 0 <= i < j < sorted.len() implies (#[trigger] sorted[i]).price
        <= (#[trigger] sorted[j]).price && (sorted[i].price == sorted[j].price ==> text::text_le(
        sorted[i].bidder,
        sorted[j].bidder,
    )) by {
        let (x, y) = (by_price()(sorted[i]), by_price()(sorted[j]));
        assert(order::key_le(x, y));
        order::lemma_key_le_parts(x, y);
        if sorted[i].price == sorted[j].price {
            order::lemma_key_le_parts(x.drop_first(), y.drop_first());
        }
    }
}

proof fn lemma_offers_kept(v: TaskMarketProjectionView, task_id: Seq<char>)
    ensures
        crate::task_market::with_decisions(v, task_id).0.task_offers == v.task_offers,
{
}

proof fn lemma_kept_is_given<V, M>(s: Seq<V>, mark: spec_fn(V) -> M, i: int)
    requires
        0 <= i < order::without_repeats(s, mark).len(),
    ensures
        s.contains(order::without_repeats(s, mark)[i]),
    decreases s.len(),
{
    if s.len() > 0 {
        let front = s.drop_last();
        let rest = order::without_repeats(front, mark);
        let all = order::without_repeats(s, mark);
        if i < rest.len() {
            assert(all[i] == rest[i]);
            lemma_kept_is_given(front, mark, i);
            assert(s[front.index_of(rest[i])] == all[i]);
        } else {
            assert(s[s.len() - 1] == all[i]);
        }
    }
}

proof fn lemma_last_mark<V, M>(s: Seq<V>, mark: spec_fn(V) -> M)
    requires
        s.len() > 0,
    ensures
        order::without_repeats(s, mark).len() > 0,
        mark(order::without_repeats(s, mark).last()) == mark(s.last()),
{
}

proof fn lemma_mark_is_kept<V, M>(s: Seq<V>, mark: spec_fn(V) -> M, k: int) -> (i: int)
    requires
        0 <= k < s.len(),
    ensures
        0 <= i < order::without_repeats(s, mark).len(),
        mark(order::without_repeats(s, mark)[i]) == mark(s[k]),
    decreases s.len(),
{
    let front = s.drop_last();
    let rest = order::without_repeats(front, mark);
    let all = order::without_repeats(s, mark);
    if k < front.len() {
        let i = lemma_mark_is_kept(front, mark, k);
        assert(all[i] == rest[i]);
        assert(front[k] == s[k]);
        i
    } else {
        lemma_last_mark(s, mark);
        all.len() - 1
    }
}

/// An attestation supports a result: it comes with the result or is known of its
/// task, its attestor signed it, the executor signed the receipt that it names,
/// and it saw the task, the exit code and the very output of the result.
pub open spec fn backs(
    v: TaskMarketProjectionView,
    result: TaskResultView,
    a: ExecutionAttestationView,
) -> bool {
    &&& result.attestations.contains(a) || (table::values(v.task_execution_attestations).contains(a)
        && a.task_id == result.task_id)
    &&& attestation_signed(a) is Ok
    &&& result.receipt matches Some(receipt) && receipt_signed(receipt) is Ok && a.task_id
        == receipt.task_id && a.executor == receipt.executor && a.exit_code == receipt.exit_code
        && a.receipt_signature_hex == receipt_mark(receipt) && a.output_root == receipt.output_root
        && a.stdout_cid == receipt.stdout_cid && a.stderr_cid == receipt.stderr_cid
    &&& a.stdout_cid == outside::sha256_of(encode_utf8(result.stdout))
    &&& a.stderr_cid == outside::sha256_of(encode_utf8(result.stderr))
}

proof fn lemma_agrees(
    result: TaskResultView,
    receipt: ExecutionReceiptView,
    a: ExecutionAttestationView,
)
    ensures
        agrees(result, receipt)(a) <==> attestation_signed(a) is Ok && receipt_signed(receipt) is Ok
            && a.task_id == receipt.task_id && a.executor == receipt.executor && a.exit_code
            == receipt.exit_code && a.receipt_signature_hex == receipt_mark(receipt)
            && a.output_root == receipt.output_root && a.stdout_cid == receipt.stdout_cid
            && a.stderr_cid == receipt.stderr_cid && a.stdout_cid == outside::sha256_of(
            encode_utf8(result.stdout),
        ) && a.stderr_cid == outside::sha256_of(encode_utf8(result.stderr)),
{
}

proof fn lemma_both_hold<A>(one: Seq<A>, other: Seq<A>, a: A)
    ensures
        (one + other).contains(a) <==> one.contains(a) || other.contains(a),
{
    let whole = one + other;
    if one.contains(a) {
        assert(whole[one.index_of(a)] == a);
    }
    if other.contains(a) {
        assert(whole[one.len() + other.index_of(a)] == a);
    }
    if whole.contains(a) {
        let i = whole.index_of(a);
        if i < one.len() {
            assert(one[i] == a);
        } else {
            assert(other[i - one.len()] == a);
        }
    }
}

spec fn agreeing(v: TaskMarketProjectionView, result: TaskResultView) -> Seq<ExecutionAttestationView> {
    order::sort_by_key(
        (result.attestations + order::listed(
            v.task_execution_attestations,
            attests_task(result.task_id),
            by_attestation(),
        )).filter(agrees(result, result.receipt->Some_0)),
        by_observation(),
    )
}

proof fn lemma_agreeing(
    v: TaskMarketProjectionView,
    result: TaskResultView,
    a: ExecutionAttestationView,
)
    requires
        result.receipt is Some,
    ensures
        agreeing(v, result).contains(a) <==> backs(v, result, a),
{
    let receipt = result.receipt->Some_0;
    let known = order::listed(
        v.task_execution_attestations,
        attests_task(result.task_id),
        by_attestation(),
    );
    let whole = result.attestations + known;
    order::lemma_sorted_contains(whole.filter(agrees(result, receipt)), by_observation(), a);
    order::lemma_kept_contains(whole, agrees(result, receipt), a);
    lemma_both_hold(result.attestations, known, a);
    order::lemma_listed(
        v.task_execution_attestations,
        attests_task(result.task_id),
        by_attestation(),
    );
    assert(known.contains(a) <==> table::values(v.task_execution_attestations).contains(a)
        && a.task_id == result.task_id);
    lemma_agrees(result, receipt, a);
}

proof fn lemma_support_of_agreeing(v: TaskMarketProjectionView, result: TaskResultView)
    ensures
        result.receipt is Some ==> support(v, result) == order::without_repeats(
            agreeing(v, result),
            attestation_mark(),
        ),
        result.receipt is None ==> support(v, result).len() == 0,
{
}

/// Every attestation in the support of a result backs it.
pub proof fn lemma_support_backs_result(
    v: TaskMarketProjectionView,
    result: TaskResultView,
    i: int,
)
    requires
        0 <= i < support(v, result).len(),
    ensures
        backs(v, result, support(v, result)[i]),
{
    lemma_support_of_agreeing(v, result);
    lemma_kept_is_given(agreeing(v, result), attestation_mark(), i);
    lemma_agreeing(v, result, support(v, result)[i]);
}

/// Every attestation that backs a result is in its support, itself or by one that
/// is not told apart from it.
pub proof fn lemma_backing_is_support(
    v: TaskMarketProjectionView,
    result: TaskResultView,
    a: ExecutionAttestationView,
) -> (i: int)
    requires
        backs(v, result, a),
    ensures
        0 <= i < support(v, result).len(),
        attestation_key(support(v, result)[i]) == attestation_key(a),
{
    lemma_support_of_agreeing(v, result);
    lemma_agreeing(v, result, a);
    let all = agreeing(v, result);
    let k = all.index_of(a);
    lemma_mark_is_kept(all, attestation_mark(), k)
}

/// A result is attested exactly when something backs it.
pub proof fn lemma_attested_is_backed(v: TaskMarketProjectionView, result: TaskResultView)
    ensures
        attested(v)(result) <==> exists|a: ExecutionAttestationView| #[trigger]
            backs(v, result, a),
{
    if support(v, result).len() > 0 {
        lemma_support_backs_result(v, result, 0);
    }
    if exists|a: ExecutionAttestationView| #[trigger] backs(v, result, a) {
        let a = choose|a: ExecutionAttestationView| #[trigger] backs(v, result, a);
        let i = lemma_backing_is_support(v, result, a);
    }
}

/// A signed attestation is known from then on, the first of those not told apart;
/// an unsigned one changes nothing.
pub proof fn lemma_signed_attestation_is_known(
    v: TaskMarketProjectionView,
    a: ExecutionAttestationView,
)
    requires
        table::distinct(v.task_execution_attestations),
    ensures
        attestation_signed(a) is Err ==> with_attestation(v, a) == v,
        attestation_signed(a) is Ok ==> table::find(
            with_attestation(v, a).task_execution_attestations,
            (a.task_id, attestation_key(a)),
        ) == Some(
            match table::find(v.task_execution_attestations, (a.task_id, attestation_key(a))) {
                Some(known) => known,
                None => a,
            },
        ),
{
    table::lemma_put_new_find(
        v.task_execution_attestations,
        (a.task_id, attestation_key(a)),
        a,
        (a.task_id, attestation_key(a)),
    );
}

/// Verified capabilities are listed by name, none twice.
pub proof fn lemma_verified_capabilities_by_name(
    v: TaskMarketProjectionView,
    agent: Seq<char>,
    i: int,
    j: int,
)
    requires
        0 <= i < j < verified_capabilities(v, agent).len(),
    ensures
        ({
            let all = verified_capabilities(v, agent);
            &&& text::text_le(all[i].name, all[j].name)
            &&& all[i].name != all[j].name
        }),
{
    let names = shown_names(v, agent, v.task_results);
    let each = Seq::new(names.len(), |i: int| evidence(v, agent, names[i]));
    let all = verified_capabilities(v, agent);
    order::lemma_sort_by_key(each, by_capability());
    let (x, y) = (by_capability()(all[i]), by_capability()(all[j]));
    assert(order::key_le(x, y));
    order::lemma_key_le_parts(x, y);
    lemma_shown_names(v, agent, v.task_results, all[i].name);
    assert(each.no_duplicates()) by {
        assert forall|a: int, b: int| 0 <= a < each.len() && 0 <= b < each.len() && a
            != b implies each[a] != each[b] by {
            assert(names[a] != names[b]);
            assert(each[a].name == names[a] && each[b].name == names[b]);
        }
    }
    order::lemma_sorted_distinct(each, by_capability());
    let (c, d) = (all[i], all[j]);
    assert(all.contains(c) && all.contains(d));
    order::lemma_sorted_contains(each, by_capability(), c);
    order::lemma_sorted_contains(each, by_capability(), d);
    let (a, b) = (each.index_of(c), each.index_of(d));
    assert(c == evidence(v, agent, names[a]));
    assert(d == evidence(v, agent, names[b]));
    if c.name == d.name {
        assert(names[a] == names[b]);
        assert(c == d);
    }
}

/// A claim is known from then on, dated by the last time that it was made; a claim
/// that was known changes no task and no result.
pub proof fn lemma_claim_is_dated_anew(
    v: TaskMarketProjectionView,
    result: TaskResultView,
    timestamp: u64,
)
    requires
        table::distinct(v.task_result_claims),
    ensures
        ({
            let (after, effects) = with_claim(v, result, timestamp);
            let key = (result.task_id, claim_id(result));
            &&& table::find(after.task_result_claims, key) == Some(
                TaskResultClaimView { result, timestamp },
            )
            &&& table::find(v.task_result_claims, key) is Some ==> after.tasks == v.tasks
                && after.task_results == v.task_results && effects.len() == 0
        }),
{
    let key = (result.task_id, claim_id(result));
    table::lemma_put_find(
        v.task_result_claims,
        key,
        TaskResultClaimView { result, timestamp },
        key,
    );
}

/// The first spec under an identifier stands: publishing a task again leaves what
/// it asks for as it was.
pub proof fn lemma_first_task_stands(v: TaskMarketProjectionView, task: TaskSpecView)
    requires
        table::distinct(v.tasks),
        table::distinct(v.task_results),
    ensures
        ({
            let made = crate::task::task_of(task);
            let kept = match table::find(v.tasks, spec_id(task)) {
                Some(known) => known,
                None => made,
            };
            table::find(with_task(v, task).0.tasks, spec_id(task)) matches Some(t) && asks_alike(
                t,
                kept,
            )
        }),
{
    let id = spec_id(task);
    let made = crate::task::task_of(task);
    let published = TaskMarketProjectionView { tasks: table::put_new(v.tasks, id, made), ..v };
    table::lemma_put_new_find(v.tasks, id, made, id);
    lemma_decisions_ask_alike(published, id);
    lemma_result_asks_alike(crate::task_market::with_decisions(published, id).0, id);
}

/// Whether two tasks ask for the same, whoever does it and however far it is.
pub open spec fn asks_alike(a: TaskView, b: TaskView) -> bool {
    a == (TaskView { state: a.state, assigned_to: a.assigned_to, ..b })
}

proof fn lemma_result_asks_alike(v: TaskMarketProjectionView, task_id: Seq<char>)
    requires
        table::distinct(v.tasks),
        table::holds(v.tasks, task_id),
    ensures
        table::distinct(with_result(v, task_id).0.tasks),
        table::holds(with_result(v, task_id).0.tasks, task_id),
        asks_alike(
            table::at(with_result(v, task_id).0.tasks, task_id),
            table::at(v.tasks, task_id),
        ),
{
    lemma_assignment_stays(v, task_id);
    if let Some(claim) = adopted_claim(v, task_id) {
        let state = if claim.result.success {
            TaskState::Completed
        } else {
            TaskState::Failed
        };
        table::lemma_put_find(
            v.tasks,
            task_id,
            TaskView { state, ..table::at(v.tasks, task_id) },
            task_id,
        );
    }
}

proof fn lemma_decisions_ask_alike(v: TaskMarketProjectionView, task_id: Seq<char>)
    requires
        table::distinct(v.tasks),
        table::holds(v.tasks, task_id),
    ensures
        ({
            let after = crate::task_market::with_decisions(v, task_id).0.tasks;
            &&& table::distinct(after)
            &&& table::holds(after, task_id)
            &&& asks_alike(table::at(after, task_id), table::at(v.tasks, task_id))
        }),
{
    let accepted = with_acceptance(v, task_id).0;
    if let Some(a) = order::first(
        order::listed(v.task_acceptances, acceptable(v, task_id), by_acceptance()),
    ) {
        let task = TaskView {
            state: TaskState::InProgress,
            assigned_to: Some(a.bidder),
            ..table::at(v.tasks, task_id)
        };
        let next = TaskMarketProjectionView { tasks: table::put(v.tasks, task_id, task), ..v };
        table::lemma_put_find(v.tasks, task_id, task, task_id);
        lemma_result_asks_alike(next, task_id);
    }
    table::lemma_put_find(
        accepted.tasks,
        task_id,
        TaskView { state: TaskState::Cancelled, ..table::at(accepted.tasks, task_id) },
        task_id,
    );
}

proof fn lemma_kept_ascend<V, M>(s: Seq<V>, mark: spec_fn(V) -> M, key: spec_fn(V) -> SortKey)
    requires
        order::keys_ascend(s, key),
    ensures
        order::keys_ascend(order::without_repeats(s, mark), key),
    decreases s.len(),
{
    if s.len() > 0 {
        let front = s.drop_last();
        let rest = order::without_repeats(front, mark);
        let all = order::without_repeats(s, mark);
        assert(order::keys_ascend(front, key)) by {
            assert forall|i: int, j: int| 0 <= i < j < front.len() implies order::key_le(
                key(#[trigger] front[i]),
                key(#[trigger] front[j]),
            ) by {
                assert(order::key_le(key(s[i]), key(s[j])));
            }
        }
        lemma_kept_ascend(front, mark, key);
        assert forall|i: int, j: int| 0 <= i < j < all.len() implies order::key_le(
            key(#[trigger] all[i]),
            key(#[trigger] all[j]),
        ) by {
            assert(all[i] == rest[i]);
            if j < rest.len() {
                assert(all[j] == rest[j]);
            } else {
                lemma_kept_is_given(front, mark, i);
                let k = front.index_of(rest[i]);
                assert(front[k] == s[k]);
                assert(s[s.len() - 1] == all[j]);
                assert(order::key_le(key(s[k]), key(s[s.len() - 1])));
            }
        }
    }
}

/// The support of a result comes from the earliest observation on.
pub proof fn lemma_support_goes_by_time(
    v: TaskMarketProjectionView,
    result: TaskResultView,
    i: int,
    j: int,
)
    requires
        0 <= i < j < support(v, result).len(),
    ensures
        support(v, result)[i].observed_at <= support(v, result)[j].observed_at,
        support(v, result)[i].observed_at == support(v, result)[j].observed_at ==> text::text_le(
            support(v, result)[i].attestor,
            support(v, result)[j].attestor,
        ),
{
    lemma_support_of_agreeing(v, result);
    let sorted = agreeing(v, result);
    lemma_agreeing_ascend(v, result);
    lemma_kept_ascend(sorted, attestation_mark(), by_observation());
    let all = order::without_repeats(sorted, attestation_mark());
    let (x, y) = (by_observation()(all[i]), by_observation()(all[j]));
    assert(order::key_le(x, y));
    order::lemma_key_le_parts(x, y);
    if all[i].observed_at == all[j].observed_at {
        order::lemma_key_le_parts(x.drop_first(), y.drop_first());
    }
}

proof fn lemma_agreeing_ascend(v: TaskMarketProjectionView, result: TaskResultView)
    ensures
        order::keys_ascend(agreeing(v, result), by_observation()),
{
    order::lemma_sort_by_key(
        (result.attestations + order::listed(
            v.task_execution_attestations,
            attests_task(result.task_id),
            by_attestation(),
        )).filter(agrees(result, result.receipt->Some_0)),
        by_observation(),
    );
}

} // verus!
