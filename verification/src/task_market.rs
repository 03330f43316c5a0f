//! The task board as the society sees it: tasks, offers, acceptances,
//! cancellations, result claims, attestations and disputes, in whatever order
//! they became known.
use crate::facts::{
    claim_id, or_empty, task_result_claim_id, text_or_empty, Interaction, InteractionOutcome,
    InteractionView, TaskDispute, TaskDisputeView, TaskResultClaim, TaskResultClaimView,
    VerifiedCapability, VerifiedCapabilityView, WorkspaceSnapshot, WorkspaceSnapshotView,
};
use crate::order::{self, KeyPart, KeyPartView, SortKey};
use crate::outside;
use crate::table::{self, Group, Key, Table};
use crate::task::{
    attestation_signed, attests, ended, open_for_bids, receipt_signed, same_texts, spec_id, task_of,
    text_cid, ExecutionAttestation, ExecutionAttestationView, ExecutionReceiptView, Task,
    TaskAcceptance, TaskAcceptanceView, TaskCancellation, TaskCancellationView, TaskOffer,
    TaskOfferView, TaskResult, TaskResultView, TaskSpec, TaskSpecView, TaskState, TaskView,
};
use crate::text;
use crate::twin::{lemma_bytes_view, Twin};
use crate::types::Did;
use vstd::prelude::*;
use vstd::string::*;
use vstd::utf8::*;

verus! {

broadcast use lemma_bytes_view;

/// What is known of tasks.
#[derive(Debug, PartialEq, Eq)]
pub struct TaskMarketProjection {
    pub tasks: Table<String, Task>,
    pub task_offers: Table<String, Vec<TaskOffer>>,
    pub task_acceptances: Table<(String, String), TaskAcceptance>,
    pub task_cancellations: Table<(String, String), TaskCancellation>,
    pub task_results: Table<String, TaskResult>,
    pub task_result_claims: Table<(String, String), TaskResultClaim>,
    pub task_execution_attestations: Table<(String, String), ExecutionAttestation>,
    pub task_disputes: Table<String, TaskDispute>,
    pub applied_task_results: Group<String>,
}

/// The mathematical form of [`TaskMarketProjection`].
#[verifier::ext_equal]
pub struct TaskMarketProjectionView {
    pub tasks: Seq<(Seq<char>, TaskView)>,
    pub task_offers: Seq<(Seq<char>, Seq<TaskOfferView>)>,
    pub task_acceptances: Seq<((Seq<char>, Seq<char>), TaskAcceptanceView)>,
    pub task_cancellations: Seq<((Seq<char>, Seq<char>), TaskCancellationView)>,
    pub task_results: Seq<(Seq<char>, TaskResultView)>,
    pub task_result_claims: Seq<((Seq<char>, Seq<char>), TaskResultClaimView)>,
    pub task_execution_attestations: Seq<((Seq<char>, Seq<char>), ExecutionAttestationView)>,
    pub task_disputes: Seq<(Seq<char>, TaskDisputeView)>,
    pub applied_task_results: Seq<Seq<char>>,
}

impl DeepView for TaskMarketProjection {
    type V = TaskMarketProjectionView;

    closed spec fn deep_view(&self) -> TaskMarketProjectionView {
        TaskMarketProjectionView {
            tasks: self.tasks.deep_view(),
            task_offers: self.task_offers.deep_view(),
            task_acceptances: self.task_acceptances.deep_view(),
            task_cancellations: self.task_cancellations.deep_view(),
            task_results: self.task_results.deep_view(),
            task_result_claims: self.task_result_claims.deep_view(),
            task_execution_attestations: self.task_execution_attestations.deep_view(),
            task_disputes: self.task_disputes.deep_view(),
            applied_task_results: self.applied_task_results.deep_view(),
        }
    }
}

impl Twin for TaskMarketProjection {
    fn twin(&self) -> (r: Self) {
        TaskMarketProjection {
            tasks: self.tasks.twin(),
            task_offers: self.task_offers.twin(),
            task_acceptances: self.task_acceptances.twin(),
            task_cancellations: self.task_cancellations.twin(),
            task_results: self.task_results.twin(),
            task_result_claims: self.task_result_claims.twin(),
            task_execution_attestations: self.task_execution_attestations.twin(),
            task_disputes: self.task_disputes.twin(),
            applied_task_results: self.applied_task_results.twin(),
        }
    }
}

impl Clone for TaskMarketProjection {
    fn clone(&self) -> (r: Self)
        ensures
            r.deep_view() == self.deep_view(),
    {
        self.twin()
    }
}

/// What a change on the task board means for the rest of the society.
#[derive(Debug, PartialEq, Eq)]
pub enum TaskMarketEffect {
    WorkspaceSnapshot(WorkspaceSnapshot),
    Interaction(Interaction),
}

/// The mathematical form of [`TaskMarketEffect`].
pub enum TaskMarketEffectView {
    WorkspaceSnapshot(WorkspaceSnapshotView),
    Interaction(InteractionView),
}

impl DeepView for TaskMarketEffect {
    type V = TaskMarketEffectView;

    open spec fn deep_view(&self) -> TaskMarketEffectView {
        match self {
            TaskMarketEffect::WorkspaceSnapshot(a0) => TaskMarketEffectView::WorkspaceSnapshot(a0.deep_view()),
            TaskMarketEffect::Interaction(a0) => TaskMarketEffectView::Interaction(a0.deep_view()),
        }
    }
}

impl Twin for TaskMarketEffect {
    fn twin(&self) -> (r: Self) {
        match self {
            TaskMarketEffect::WorkspaceSnapshot(a0) => TaskMarketEffect::WorkspaceSnapshot(a0.twin()),
            TaskMarketEffect::Interaction(a0) => TaskMarketEffect::Interaction(a0.twin()),
        }
    }
}

impl Clone for TaskMarketEffect {
    fn clone(&self) -> (r: Self)
        ensures
            r.deep_view() == self.deep_view(),
    {
        self.twin()
    }
}

/// The key of an acceptance.
pub open spec fn acceptance_key(v: TaskAcceptanceView) -> Seq<char> {
    text::joined(
        seq![
            v.publisher,
            v.bidder,
            text::decimal(v.price as nat),
            text::decimal(v.accepted_at as nat),
        ],
        "|"@,
    )
}

fn acceptance_key_of(v: &TaskAcceptance) -> (r: String)
    ensures
        r@ == acceptance_key(v.deep_view()),
{
    let parts = vec![
        v.publisher.to_string(),
        v.bidder.to_string(),
        text::decimal_text(v.price),
        text::decimal_text(v.accepted_at),
    ];
    assert(parts.deep_view() =~= seq![
        v.deep_view().publisher,
        v.deep_view().bidder,
        text::decimal(v.price as nat),
        text::decimal(v.accepted_at as nat),
    ]);
    text::piped(&parts)
}

/// The key of a cancellation.
pub open spec fn cancellation_key(v: TaskCancellationView) -> Seq<char> {
    text::joined(seq![v.publisher, v.reason, text::decimal(v.cancelled_at as nat)], "|"@)
}

fn cancellation_key_of(v: &TaskCancellation) -> (r: String)
    ensures
        r@ == cancellation_key(v.deep_view()),
{
    let parts = vec![
        v.publisher.to_string(),
        v.reason.twin(),
        text::decimal_text(v.cancelled_at),
    ];
    assert(parts.deep_view() =~= seq![
        v.deep_view().publisher,
        v.deep_view().reason,
        text::decimal(v.cancelled_at as nat),
    ]);
    text::piped(&parts)
}

/// The key of a dispute.
pub open spec fn dispute_key(v: TaskDisputeView) -> Seq<char> {
    text::joined(seq![v.task_id, v.disputer, v.target, or_empty(v.claim_id)], "|"@)
}

fn dispute_key_of(v: &TaskDispute) -> (r: String)
    ensures
        r@ == dispute_key(v.deep_view()),
{
    let parts = vec![
        v.task_id.twin(),
        v.disputer.to_string(),
        v.target.to_string(),
        text_or_empty(&v.claim_id),
    ];
    assert(parts.deep_view() =~= seq![
        v.deep_view().task_id,
        v.deep_view().disputer,
        v.deep_view().target,
        or_empty(v.deep_view().claim_id),
    ]);
    text::piped(&parts)
}

/// The key of an attestation.
pub open spec fn attestation_key(v: ExecutionAttestationView) -> Seq<char> {
    text::joined(
        seq![
            v.task_id,
            v.executor,
            v.attestor,
            v.receipt_signature_hex,
            outside::hex_text(v.stdout_cid),
            outside::hex_text(v.stderr_cid),
        ],
        "|"@,
    )
}

fn attestation_key_of(v: &ExecutionAttestation) -> (r: String)
    ensures
        r@ == attestation_key(v.deep_view()),
{
    let parts = vec![
        v.task_id.twin(),
        v.executor.to_string(),
        v.attestor.to_string(),
        v.receipt_signature_hex.twin(),
        v.stdout_cid.to_string(),
        v.stderr_cid.to_string(),
    ];
    assert(parts.deep_view() =~= seq![
        v.deep_view().task_id,
        v.deep_view().executor,
        v.deep_view().attestor,
        v.deep_view().receipt_signature_hex,
        outside::hex_text(v.deep_view().stdout_cid),
        outside::hex_text(v.deep_view().stderr_cid),
    ]);
    text::piped(&parts)
}

/// When the execution behind a result began; zero without a receipt.
pub open spec fn started(v: TaskResultView) -> u64 {
    match v.receipt {
        Some(receipt) => receipt.started_at,
        None => 0,
    }
}

/// When the execution behind a result ended; zero without a receipt.
pub open spec fn finished(v: TaskResultView) -> u64 {
    match v.receipt {
        Some(receipt) => receipt.finished_at,
        None => 0,
    }
}

/// The command behind a result; empty without a receipt.
pub open spec fn ran_command(v: TaskResultView) -> Seq<char> {
    match v.receipt {
        Some(receipt) => receipt.command,
        None => Seq::empty(),
    }
}

/// The arguments behind a result; none without a receipt.
pub open spec fn ran_args(v: TaskResultView) -> Seq<Seq<char>> {
    match v.receipt {
        Some(receipt) => receipt.args,
        None => Seq::empty(),
    }
}

fn task_result_claim_started_at(v: &TaskResult) -> (r: u64)
    ensures
        r == started(v.deep_view()),
{
    match &v.receipt {
        Some(receipt) => receipt.started_at,
        None => 0,
    }
}

fn task_result_claim_finished_at(v: &TaskResult) -> (r: u64)
    ensures
        r == finished(v.deep_view()),
{
    match &v.receipt {
        Some(receipt) => receipt.finished_at,
        None => 0,
    }
}

fn task_result_claim_command(v: &TaskResult) -> (r: String)
    ensures
        r@ == ran_command(v.deep_view()),
{
    match &v.receipt {
        Some(receipt) => receipt.command.twin(),
        None => String::new(),
    }
}

fn task_result_claim_args(v: &TaskResult) -> (r: Vec<String>)
    ensures
        r.deep_view() == ran_args(v.deep_view()),
{
    match &v.receipt {
        Some(receipt) => receipt.args.twin(),
        None => {
            let none: Vec<String> = Vec::new();
            assert(none.deep_view() =~= Seq::<Seq<char>>::empty());
            none
        },
    }
}

/// Tasks by identifier.
pub open spec fn by_task_id() -> spec_fn(TaskView) -> SortKey {
    |v: TaskView|
        seq![
            KeyPartView::Text(v.id),
        ]
}

fn by_task_id_of(v: &Task) -> (k: Vec<KeyPart>)
    ensures
        k.deep_view() == by_task_id()(v.deep_view()),
{
    let k = vec![
            KeyPart::Text(v.id.twin()),
        ];
    assert(k.deep_view() =~= by_task_id()(v.deep_view()));
    k
}

/// Offers by price, then bidder.
pub open spec fn by_price() -> spec_fn(TaskOfferView) -> SortKey {
    |v: TaskOfferView|
        seq![
            KeyPartView::Num(v.price as int),
            KeyPartView::Text(v.bidder),
        ]
}

fn by_price_of(v: &TaskOffer) -> (k: Vec<KeyPart>)
    ensures
        k.deep_view() == by_price()(v.deep_view()),
{
    let k = vec![
            KeyPart::Num(v.price as i128),
            KeyPart::Text(v.bidder.to_string()),
        ];
    assert(k.deep_view() =~= by_price()(v.deep_view()));
    k
}

/// Acceptances by time, bidder and price.
pub open spec fn by_acceptance() -> spec_fn(TaskAcceptanceView) -> SortKey {
    |v: TaskAcceptanceView|
        seq![
            KeyPartView::Num(v.accepted_at as int),
            KeyPartView::Text(v.bidder),
            KeyPartView::Num(v.price as int),
        ]
}

fn by_acceptance_of(v: &TaskAcceptance) -> (k: Vec<KeyPart>)
    ensures
        k.deep_view() == by_acceptance()(v.deep_view()),
{
    let k = vec![
            KeyPart::Num(v.accepted_at as i128),
            KeyPart::Text(v.bidder.to_string()),
            KeyPart::Num(v.price as i128),
        ];
    assert(k.deep_view() =~= by_acceptance()(v.deep_view()));
    k
}

/// Cancellations by time and reason.
pub open spec fn by_cancellation() -> spec_fn(TaskCancellationView) -> SortKey {
    |v: TaskCancellationView|
        seq![
            KeyPartView::Num(v.cancelled_at as int),
            KeyPartView::Text(v.reason),
        ]
}

fn by_cancellation_of(v: &TaskCancellation) -> (k: Vec<KeyPart>)
    ensures
        k.deep_view() == by_cancellation()(v.deep_view()),
{
    let k = vec![
            KeyPart::Num(v.cancelled_at as i128),
            KeyPart::Text(v.reason.twin()),
        ];
    assert(k.deep_view() =~= by_cancellation()(v.deep_view()));
    k
}

/// Claims by time, executor and exit code.
pub open spec fn by_claim_time() -> spec_fn(TaskResultClaimView) -> SortKey {
    |v: TaskResultClaimView|
        seq![
            KeyPartView::Num(v.timestamp as int),
            KeyPartView::Text(v.result.executor),
            KeyPartView::Num(v.result.exit_code as int),
        ]
}

fn by_claim_time_of(v: &TaskResultClaim) -> (k: Vec<KeyPart>)
    ensures
        k.deep_view() == by_claim_time()(v.deep_view()),
{
    let k = vec![
            KeyPart::Num(v.timestamp as i128),
            KeyPart::Text(v.result.executor.to_string()),
            KeyPart::Num(v.result.exit_code as i128),
        ];
    assert(k.deep_view() =~= by_claim_time()(v.deep_view()));
    k
}

/// Claims by time, then by the execution behind them.
pub open spec fn by_claim() -> spec_fn(TaskResultClaimView) -> SortKey {
    |v: TaskResultClaimView|
        seq![
            KeyPartView::Num(v.timestamp as int),
            KeyPartView::Num(started(v.result) as int),
            KeyPartView::Num(finished(v.result) as int),
            KeyPartView::Text(v.result.executor),
            KeyPartView::Text(ran_command(v.result)),
            KeyPartView::Texts(ran_args(v.result)),
            KeyPartView::Num(v.result.exit_code as int),
        ]
}

fn by_claim_of(v: &TaskResultClaim) -> (k: Vec<KeyPart>)
    ensures
        k.deep_view() == by_claim()(v.deep_view()),
{
    let k = vec![
            KeyPart::Num(v.timestamp as i128),
            KeyPart::Num(task_result_claim_started_at(&v.result) as i128),
            KeyPart::Num(task_result_claim_finished_at(&v.result) as i128),
            KeyPart::Text(v.result.executor.to_string()),
            KeyPart::Text(task_result_claim_command(&v.result)),
            KeyPart::Texts(task_result_claim_args(&v.result)),
            KeyPart::Num(v.result.exit_code as i128),
        ];
    assert(k.deep_view() =~= by_claim()(v.deep_view()));
    k
}

/// Claims by task, then by the execution behind them.
pub open spec fn by_agent_claim() -> spec_fn(TaskResultClaimView) -> SortKey {
    |v: TaskResultClaimView|
        seq![
            KeyPartView::Text(v.result.task_id),
            KeyPartView::Num(started(v.result) as int),
            KeyPartView::Num(finished(v.result) as int),
            KeyPartView::Text(ran_command(v.result)),
            KeyPartView::Texts(ran_args(v.result)),
            KeyPartView::Num(v.result.exit_code as int),
        ]
}

fn by_agent_claim_of(v: &TaskResultClaim) -> (k: Vec<KeyPart>)
    ensures
        k.deep_view() == by_agent_claim()(v.deep_view()),
{
    let k = vec![
            KeyPart::Text(v.result.task_id.twin()),
            KeyPart::Num(task_result_claim_started_at(&v.result) as i128),
            KeyPart::Num(task_result_claim_finished_at(&v.result) as i128),
            KeyPart::Text(task_result_claim_command(&v.result)),
            KeyPart::Texts(task_result_claim_args(&v.result)),
            KeyPart::Num(v.result.exit_code as i128),
        ];
    assert(k.deep_view() =~= by_agent_claim()(v.deep_view()));
    k
}

/// Results by task and exit code.
pub open spec fn by_result() -> spec_fn(TaskResultView) -> SortKey {
    |v: TaskResultView|
        seq![
            KeyPartView::Text(v.task_id),
            KeyPartView::Num(v.exit_code as int),
        ]
}

fn by_result_of(v: &TaskResult) -> (k: Vec<KeyPart>)
    ensures
        k.deep_view() == by_result()(v.deep_view()),
{
    let k = vec![
            KeyPart::Text(v.task_id.twin()),
            KeyPart::Num(v.exit_code as i128),
        ];
    assert(k.deep_view() =~= by_result()(v.deep_view()));
    k
}

/// Attestations by time, executor, attestor and receipt.
pub open spec fn by_attestation() -> spec_fn(ExecutionAttestationView) -> SortKey {
    |v: ExecutionAttestationView|
        seq![
            KeyPartView::Num(v.observed_at as int),
            KeyPartView::Text(v.executor),
            KeyPartView::Text(v.attestor),
            KeyPartView::Text(v.receipt_signature_hex),
        ]
}

fn by_attestation_of(v: &ExecutionAttestation) -> (k: Vec<KeyPart>)
    ensures
        k.deep_view() == by_attestation()(v.deep_view()),
{
    let k = vec![
            KeyPart::Num(v.observed_at as i128),
            KeyPart::Text(v.executor.to_string()),
            KeyPart::Text(v.attestor.to_string()),
            KeyPart::Text(v.receipt_signature_hex.twin()),
        ];
    assert(k.deep_view() =~= by_attestation()(v.deep_view()));
    k
}

/// Attestations by time and attestor.
pub open spec fn by_observation() -> spec_fn(ExecutionAttestationView) -> SortKey {
    |v: ExecutionAttestationView|
        seq![
            KeyPartView::Num(v.observed_at as int),
            KeyPartView::Text(v.attestor),
        ]
}

fn by_observation_of(v: &ExecutionAttestation) -> (k: Vec<KeyPart>)
    ensures
        k.deep_view() == by_observation()(v.deep_view()),
{
    let k = vec![
            KeyPart::Num(v.observed_at as i128),
            KeyPart::Text(v.attestor.to_string()),
        ];
    assert(k.deep_view() =~= by_observation()(v.deep_view()));
    k
}

/// Disputes by time, disputer, target and claim.
pub open spec fn by_dispute() -> spec_fn(TaskDisputeView) -> SortKey {
    |v: TaskDisputeView|
        seq![
            KeyPartView::Num(v.timestamp as int),
            KeyPartView::Text(v.disputer),
            KeyPartView::Text(v.target),
            KeyPartView::Num(if v.claim_id is Some { 1int } else { 0int }),
            KeyPartView::Text(or_empty(v.claim_id)),
        ]
}

fn by_dispute_of(v: &TaskDispute) -> (k: Vec<KeyPart>)
    ensures
        k.deep_view() == by_dispute()(v.deep_view()),
{
    let k = vec![
            KeyPart::Num(v.timestamp as i128),
            KeyPart::Text(v.disputer.to_string()),
            KeyPart::Text(v.target.to_string()),
            KeyPart::Num(if v.claim_id.is_some() { 1 } else { 0 }),
            KeyPart::Text(text_or_empty(&v.claim_id)),
        ];
    assert(k.deep_view() =~= by_dispute()(v.deep_view()));
    k
}

/// Results by the time of their execution, latest first, then by task.
pub open spec fn by_latest() -> spec_fn(TaskResultView) -> SortKey {
    |v: TaskResultView|
        seq![
            KeyPartView::Num(order::opposite(finished(v) as int)),
            KeyPartView::Text(v.task_id),
        ]
}

fn by_latest_of(v: &TaskResult) -> (k: Vec<KeyPart>)
    ensures
        k.deep_view() == by_latest()(v.deep_view()),
{
    let k = vec![
            KeyPart::Num(order::negated(task_result_claim_finished_at(v))),
            KeyPart::Text(v.task_id.twin()),
        ];
    assert(k.deep_view() =~= by_latest()(v.deep_view()));
    k
}

/// Capabilities by name.
pub open spec fn by_capability() -> spec_fn(VerifiedCapabilityView) -> SortKey {
    |v: VerifiedCapabilityView|
        seq![
            KeyPartView::Text(v.name),
        ]
}

fn by_capability_of(v: &VerifiedCapability) -> (k: Vec<KeyPart>)
    ensures
        k.deep_view() == by_capability()(v.deep_view()),
{
    let k = vec![
            KeyPart::Text(v.name.twin()),
        ];
    assert(k.deep_view() =~= by_capability()(v.deep_view()));
    k
}

/// The offers on a task, best first.
pub open spec fn offers_on(v: TaskMarketProjectionView, task_id: Seq<char>) -> Seq<TaskOfferView> {
    match table::find(v.task_offers, task_id) {
        Some(offers) => offers,
        None => Seq::empty(),
    }
}

/// Whether a bidder offered at a price.
pub open spec fn offered(offers: Seq<TaskOfferView>, bidder: Seq<char>, price: u64) -> bool {
    exists|i: int|
        0 <= i < offers.len() && (#[trigger] offers[i]).bidder == bidder && offers[i].price
            == price
}

/// Acceptances of a task that can take effect: by its publisher, of an offer
/// that was made, while the task is open.
pub open spec fn acceptable(v: TaskMarketProjectionView, task_id: Seq<char>) -> spec_fn(TaskAcceptanceView) -> bool {
    |a: TaskAcceptanceView|
        a.task_id == task_id && table::holds(v.tasks, task_id) && table::at(
            v.tasks,
            task_id,
        ).publisher == a.publisher && open_for_bids(table::at(v.tasks, task_id)) && offered(
            offers_on(v, task_id),
            a.bidder,
            a.price,
        )
}

/// Acceptances of a task that are in effect: by its publisher, of the offer of
/// the agent that it is assigned to.
pub open spec fn effective(v: TaskMarketProjectionView, task_id: Seq<char>) -> spec_fn(TaskAcceptanceView) -> bool {
    |a: TaskAcceptanceView|
        a.task_id == task_id && table::holds(v.tasks, task_id) && table::at(
            v.tasks,
            task_id,
        ).publisher == a.publisher && table::at(v.tasks, task_id).assigned_to == Some(a.bidder)
            && offered(offers_on(v, task_id), a.bidder, a.price)
}

/// Cancellations of a task that can take effect: by its publisher, before the
/// task has ended.
pub open spec fn cancellable(v: TaskMarketProjectionView, task_id: Seq<char>) -> spec_fn(TaskCancellationView) -> bool {
    |c: TaskCancellationView|
        c.task_id == task_id && table::holds(v.tasks, task_id) && table::at(
            v.tasks,
            task_id,
        ).publisher == c.publisher && !ended(table::at(v.tasks, task_id))
}

/// Cancellations of a task by its publisher, once the task is cancelled.
pub open spec fn cancelled_by(v: TaskMarketProjectionView, task_id: Seq<char>) -> spec_fn(TaskCancellationView) -> bool {
    |c: TaskCancellationView|
        c.task_id == task_id && table::holds(v.tasks, task_id) && table::at(
            v.tasks,
            task_id,
        ).state == TaskState::Cancelled && table::at(v.tasks, task_id).publisher == c.publisher
}

/// Whether a result is about the command of a task; a failure needs no receipt.
pub open spec fn commits_to(result: TaskResultView, task: TaskView) -> bool {
    match result.receipt {
        Some(receipt) => receipt.command == task.command && receipt.args == task.args,
        None => !result.success,
    }
}

/// Claims that can become the result of a task: by the agent that it is
/// assigned to, about its command, with a receipt for a success.
pub open spec fn adoptable(v: TaskMarketProjectionView, task_id: Seq<char>) -> spec_fn(TaskResultClaimView) -> bool {
    |c: TaskResultClaimView|
        c.result.task_id == task_id && table::holds(v.tasks, task_id) && ({
            let task = table::at(v.tasks, task_id);
            &&& task.state != TaskState::Published && task.state != TaskState::Cancelled
            &&& task.assigned_to == Some(c.result.executor)
            &&& commits_to(c.result, task)
        })
}

/// The claim that becomes the result of a task, if any.
pub open spec fn adopted_claim(v: TaskMarketProjectionView, task_id: Seq<char>) -> Option<TaskResultClaimView> {
    order::first(order::listed(v.task_result_claims, adoptable(v, task_id), by_claim_time()))
}

/// The workspace snapshot that a result implies, if any.
pub open spec fn implied_snapshot(result: TaskResultView) -> Option<WorkspaceSnapshotView> {
    match result.receipt {
        Some(receipt) => match (receipt.workspace, receipt.output_root) {
            (Some(workspace), Some(root)) => Some(
                WorkspaceSnapshotView {
                    workspace,
                    actor: receipt.executor,
                    root,
                    label: Some("task-result"@),
                    note: Some("task "@ + result.task_id + " result"@),
                    timestamp: receipt.finished_at,
                },
            ),
            _ => None,
        },
        None => None,
    }
}

/// The interaction that a result implies for the publisher of its task.
pub open spec fn implied_interaction(task: TaskView, claim: TaskResultClaimView) -> InteractionView {
    InteractionView {
        id: "task-result:"@ + claim.result.task_id,
        from: task.publisher,
        to: claim.result.executor,
        workspace: match claim.result.receipt {
            Some(receipt) => receipt.workspace,
            None => None,
        },
        topic: task.description,
        outcome: if claim.result.success {
            InteractionOutcome::Success
        } else {
            InteractionOutcome::Failure
        },
        timestamp: claim.timestamp,
        evidence: Some(claim.result.task_id),
    }
}

/// What the adoption of a claim means for the rest of the society: a snapshot,
/// where its receipt names one, and an interaction, unless publisher and
/// executor are the same agent.
pub open spec fn adoption_effects(task: TaskView, claim: TaskResultClaimView) -> Seq<
    TaskMarketEffectView,
> {
    (match implied_snapshot(claim.result) {
        Some(snapshot) => seq![TaskMarketEffectView::WorkspaceSnapshot(snapshot)],
        None => Seq::empty(),
    }) + (if task.publisher == claim.result.executor {
        Seq::empty()
    } else {
        seq![TaskMarketEffectView::Interaction(implied_interaction(task, claim))]
    })
}

/// The board after the best claim on a task was adopted, and what that means.
pub open spec fn with_result(v: TaskMarketProjectionView, task_id: Seq<char>) -> (TaskMarketProjectionView, Seq<TaskMarketEffectView>) {
    if v.applied_task_results.contains(task_id) {
        (v, Seq::empty())
    } else {
        match adopted_claim(v, task_id) {
            None => (v, Seq::empty()),
            Some(claim) => (
                TaskMarketProjectionView {
                    tasks: table::put(
                        v.tasks,
                        task_id,
                        TaskView {
                            state: if claim.result.success {
                                TaskState::Completed
                            } else {
                                TaskState::Failed
                            },
                            ..table::at(v.tasks, task_id)
                        },
                    ),
                    task_results: table::put(v.task_results, task_id, claim.result),
                    applied_task_results: table::joined(v.applied_task_results, task_id),
                    ..v
                },
                adoption_effects(table::at(v.tasks, task_id), claim),
            ),
        }
    }
}

/// The board after the best acceptance of a task took effect.
pub open spec fn with_acceptance(v: TaskMarketProjectionView, task_id: Seq<char>) -> (
    TaskMarketProjectionView,
    Seq<TaskMarketEffectView>,
) {
    match order::first(
        order::listed(v.task_acceptances, acceptable(v, task_id), by_acceptance()),
    ) {
        None => (v, Seq::empty()),
        Some(a) => with_result(
            TaskMarketProjectionView {
                tasks: table::put(
                    v.tasks,
                    task_id,
                    TaskView {
                        state: TaskState::InProgress,
                        assigned_to: Some(a.bidder),
                        ..table::at(v.tasks, task_id)
                    },
                ),
                ..v
            },
            task_id,
        ),
    }
}

/// The board after a cancellation of a task took effect.
pub open spec fn with_cancellation(v: TaskMarketProjectionView, task_id: Seq<char>) -> TaskMarketProjectionView {
    match order::first(
        order::listed(v.task_cancellations, cancellable(v, task_id), by_cancellation()),
    ) {
        None => v,
        Some(_) => TaskMarketProjectionView {
            tasks: table::put(
                v.tasks,
                task_id,
                TaskView { state: TaskState::Cancelled, ..table::at(v.tasks, task_id) },
            ),
            ..v
        },
    }
}

/// The board after acceptances and cancellations of a task were looked at.
pub open spec fn with_decisions(v: TaskMarketProjectionView, task_id: Seq<char>) -> (
    TaskMarketProjectionView,
    Seq<TaskMarketEffectView>,
) {
    let accepted = with_acceptance(v, task_id);
    (with_cancellation(accepted.0, task_id), accepted.1)
}

/// The board after a task was published: the first spec of a task stands.
pub open spec fn with_task(v: TaskMarketProjectionView, task: TaskSpecView) -> (TaskMarketProjectionView, Seq<TaskMarketEffectView>) {
    let id = spec_id(task);
    let known = TaskMarketProjectionView { tasks: table::put_new(v.tasks, id, task_of(task)), ..v };
    let decided = with_decisions(known, id);
    let resulted = with_result(decided.0, id);
    (resulted.0, decided.1 + resulted.1)
}

/// The board after an offer: the first offer of a bidder stands.
pub open spec fn with_offer(v: TaskMarketProjectionView, offer: TaskOfferView) -> (TaskMarketProjectionView, Seq<TaskMarketEffectView>) {
    let offers = offers_on(v, offer.task_id);
    if exists|i: int| 0 <= i < offers.len() && (#[trigger] offers[i]).bidder == offer.bidder {
        (v, Seq::empty())
    } else {
        with_decisions(
            TaskMarketProjectionView {
                task_offers: table::put(
                    v.task_offers,
                    offer.task_id,
                    order::sort_by_key(offers.push(offer), by_price()),
                ),
                ..v
            },
            offer.task_id,
        )
    }
}

/// The board after an acceptance became known.
pub open spec fn with_known_acceptance(v: TaskMarketProjectionView, a: TaskAcceptanceView) -> (
    TaskMarketProjectionView,
    Seq<TaskMarketEffectView>,
) {
    with_decisions(
        TaskMarketProjectionView {
            task_acceptances: table::put_new(
                v.task_acceptances,
                (a.task_id, acceptance_key(a)),
                a,
            ),
            ..v
        },
        a.task_id,
    )
}

/// The board after a cancellation became known.
pub open spec fn with_known_cancellation(v: TaskMarketProjectionView, c: TaskCancellationView) -> TaskMarketProjectionView {
    with_cancellation(
        TaskMarketProjectionView {
            task_cancellations: table::put_new(
                v.task_cancellations,
                (c.task_id, cancellation_key(c)),
                c,
            ),
            ..v
        },
        c.task_id,
    )
}

/// The board after a result was claimed. A claim that is known is only dated
/// anew.
pub open spec fn with_claim(v: TaskMarketProjectionView, result: TaskResultView, timestamp: u64) -> (
    TaskMarketProjectionView,
    Seq<TaskMarketEffectView>,
) {
    let key = (result.task_id, claim_id(result));
    let known = TaskMarketProjectionView {
        task_result_claims: table::put(
            v.task_result_claims,
            key,
            TaskResultClaimView { result, timestamp },
        ),
        ..v
    };
    if table::holds(v.task_result_claims, key) {
        (known, Seq::empty())
    } else {
        with_result(known, result.task_id)
    }
}

/// The board after an attestation: one that its attestor did not sign is left
/// out.
pub open spec fn with_attestation(v: TaskMarketProjectionView, a: ExecutionAttestationView) -> TaskMarketProjectionView {
    if attestation_signed(a) is Ok {
        TaskMarketProjectionView {
            task_execution_attestations: table::put_new(
                v.task_execution_attestations,
                (a.task_id, attestation_key(a)),
                a,
            ),
            ..v
        }
    } else {
        v
    }
}

/// The interaction that a dispute is remembered as.
pub open spec fn disputed_interaction(d: TaskDisputeView) -> InteractionView {
    InteractionView {
        id: "task-dispute:"@ + d.task_id + ":"@ + d.disputer + ":"@ + d.target + ":"@ + or_empty(
            d.claim_id,
        ),
        from: d.disputer,
        to: d.target,
        workspace: None,
        topic: match d.claim_id {
            Some(claim) => "task dispute: "@ + d.reason + " ("@ + claim + ")"@,
            None => "task dispute: "@ + d.reason,
        },
        outcome: InteractionOutcome::Dispute,
        timestamp: d.timestamp,
        evidence: Some(
            match d.evidence {
                Some(evidence) => evidence,
                None => match d.claim_id {
                    Some(claim) => "claim:"@ + claim,
                    None => d.task_id,
                },
            },
        ),
    }
}

/// The board after a dispute, and the interaction that a new one means.
pub open spec fn with_dispute(v: TaskMarketProjectionView, d: TaskDisputeView) -> (TaskMarketProjectionView, Option<TaskMarketEffectView>) {
    (
        TaskMarketProjectionView { task_disputes: table::put(v.task_disputes, dispute_key(d), d), ..v },
        if table::holds(v.task_disputes, dispute_key(d)) {
            None
        } else {
            Some(TaskMarketEffectView::Interaction(disputed_interaction(d)))
        },
    )
}

/// Attestations of a task.
pub open spec fn attests_task(task_id: Seq<char>) -> spec_fn(ExecutionAttestationView) -> bool {
    |v: ExecutionAttestationView| v.task_id == task_id
}

/// Claims on a task.
pub open spec fn claims_task(task_id: Seq<char>) -> spec_fn(TaskResultClaimView) -> bool {
    |v: TaskResultClaimView| v.result.task_id == task_id
}

/// Claims of an agent.
pub open spec fn claimed_by(executor: Seq<char>) -> spec_fn(TaskResultClaimView) -> bool {
    |v: TaskResultClaimView| v.result.executor == executor
}

/// Results of an agent.
pub open spec fn made_by(executor: Seq<char>) -> spec_fn(TaskResultView) -> bool {
    |v: TaskResultView| v.executor == executor
}

/// Disputes of a task.
pub open spec fn disputes_task(task_id: Seq<char>) -> spec_fn(TaskDisputeView) -> bool {
    |v: TaskDisputeView| v.task_id == task_id
}

/// Open tasks that require a capability.
pub open spec fn open_needing(capability: Seq<char>) -> spec_fn(TaskView) -> bool {
    |v: TaskView| open_for_bids(v) && v.required_capability == capability
}

/// Attestations that agree with a result and its receipt.
pub open spec fn agrees(result: TaskResultView, receipt: ExecutionReceiptView) -> spec_fn(
    ExecutionAttestationView,
) -> bool {
    |a: ExecutionAttestationView|
        attests(a, receipt) is Ok && a.stdout_cid == outside::sha256_of(
            encode_utf8(result.stdout),
        ) && a.stderr_cid == outside::sha256_of(encode_utf8(result.stderr))
}

/// What tells attestations apart.
pub open spec fn attestation_mark() -> spec_fn(ExecutionAttestationView) -> Seq<char> {
    |a: ExecutionAttestationView| attestation_key(a)
}

/// The attestations that support a result: those that came with it and those
/// that are known of its task.
pub open spec fn support(v: TaskMarketProjectionView, result: TaskResultView) -> Seq<ExecutionAttestationView> {
    match result.receipt {
        None => Seq::empty(),
        Some(receipt) => order::without_repeats(
            order::sort_by_key(
                (result.attestations + order::listed(
                    v.task_execution_attestations,
                    attests_task(result.task_id),
                    by_attestation(),
                )).filter(agrees(result, receipt)),
                by_observation(),
            ),
            attestation_mark(),
        ),
    }
}

/// Results that show what an agent can do: adopted successes on tasks assigned
/// to it, with its own signature on a receipt for the task's command.
pub open spec fn shows(v: TaskMarketProjectionView, agent: Seq<char>, r: TaskResultView) -> bool {
    &&& r.executor == agent
    &&& r.success
    &&& table::holds(v.tasks, r.task_id)
    &&& table::at(v.tasks, r.task_id).assigned_to == Some(agent)
    &&& r.receipt is Some
    &&& receipt_signed(r.receipt->Some_0) is Ok
    &&& commits_to(r, table::at(v.tasks, r.task_id))
}

/// Results that show that an agent has a capability.
pub open spec fn shows_capability(v: TaskMarketProjectionView, agent: Seq<char>, name: Seq<char>) -> spec_fn(
    TaskResultView,
) -> bool {
    |r: TaskResultView|
        shows(v, agent, r) && table::at(v.tasks, r.task_id).required_capability == name
}

/// Results that someone else attested.
pub open spec fn attested(v: TaskMarketProjectionView) -> spec_fn(TaskResultView) -> bool {
    |r: TaskResultView| support(v, r).len() > 0
}

/// The names of the capabilities that results show, in order of appearance.
pub open spec fn shown_names(
    v: TaskMarketProjectionView,
    agent: Seq<char>,
    rows: Seq<(Seq<char>, TaskResultView)>,
) -> Seq<Seq<char>>
    decreases rows.len(),
{
    if rows.len() == 0 {
        Seq::empty()
    } else {
        let rest = shown_names(v, agent, rows.drop_last());
        let r = rows.last().1;
        if shows(v, agent, r) {
            table::joined(rest, table::at(v.tasks, r.task_id).required_capability)
        } else {
            rest
        }
    }
}

/// The evidence for one capability: how many results show it, how many of them
/// others attested, and the latest.
pub open spec fn evidence(v: TaskMarketProjectionView, agent: Seq<char>, name: Seq<char>) -> VerifiedCapabilityView {
    let results = order::listed(
        v.task_results,
        shows_capability(v, agent, name),
        by_latest(),
    );
    VerifiedCapabilityView {
        name,
        successful_tasks: results.len() as usize,
        independently_attested_tasks: results.filter(attested(v)).len() as usize,
        latest_task_id: results[0].task_id,
        latest_observed_at: finished(results[0]),
    }
}

/// The evidence for every capability of an agent, by name.
pub open spec fn verified_capabilities(v: TaskMarketProjectionView, agent: Seq<char>) -> Seq<VerifiedCapabilityView> {
    let names = shown_names(v, agent, v.task_results);
    order::sort_by_key(
        Seq::new(names.len(), |i: int| evidence(v, agent, names[i])),
        by_capability(),
    )
}

impl TaskMarketProjection {
    /// An empty board.
    pub fn new() -> (r: Self)
        ensures
            r.deep_view() == empty_board(),
    {
        TaskMarketProjection {
            tasks: Table::new(),
            task_offers: Table::new(),
            task_acceptances: Table::new(),
            task_cancellations: Table::new(),
            task_results: Table::new(),
            task_result_claims: Table::new(),
            task_execution_attestations: Table::new(),
            task_disputes: Table::new(),
            applied_task_results: Group::new(),
        }
    }

    /// The number of tasks.
    pub fn task_count(&self) -> (r: usize)
        ensures
            r == self.deep_view().tasks.len(),
    {
        self.tasks.len()
    }

    /// The task with an identifier.
    pub fn task(&self, task_id: &str) -> (r: Option<&Task>)
        ensures
            r.deep_view() == table::find(self.deep_view().tasks, task_id@),
    {
        self.tasks.get(&text::owned(task_id))
    }

    /// The offers on a task, best first.
    pub fn task_offers(&self, task_id: &str) -> (r: &[TaskOffer])
        ensures
            r.deep_view() == offers_on(self.deep_view(), task_id@),
    {
        match self.task_offers.get(&text::owned(task_id)) {
            Some(offers) => {
                let all = offers.as_slice();
                assert(all.deep_view() =~= offers.deep_view());
                all
            },
            None => {
                let none: &[TaskOffer] = &[];
                assert(none.deep_view() =~= Seq::<TaskOfferView>::empty());
                none
            },
        }
    }

    /// The adopted result of a task.
    pub fn task_result(&self, task_id: &str) -> (r: Option<&TaskResult>)
        ensures
            r.deep_view() == table::find(self.deep_view().task_results, task_id@),
    {
        self.task_results.get(&text::owned(task_id))
    }

    /// All tasks.
    pub fn tasks(&self) -> (r: Vec<&Task>)
        ensures
            r.deep_view() == order::listed(self.deep_view().tasks, order::every(), by_task_id()),
    {
        let keep = |v: &Task| -> (b: bool)
            ensures
                b == (order::every())(v.deep_view()),
            { true };
        let key = |v: &Task| -> (k: Vec<KeyPart>)
            ensures
                k.deep_view() == by_task_id()(v.deep_view()),
            { by_task_id_of(v) };
        order::listing(&self.tasks, keep, key, Ghost(order::every()), Ghost(by_task_id()))
    }

    /// The open tasks that require a capability, by identifier.
    pub fn open_tasks_for(&self, capability: &str) -> (r: Vec<&Task>)
        ensures
            r.deep_view() == order::listed(self.deep_view().tasks, open_needing(capability@), by_task_id()),
    {
        let keep = |v: &Task| -> (b: bool)
            ensures
                b == (open_needing(capability@))(v.deep_view()),
            { v.is_open() && text::same_text(v.required_capability.as_str(), capability) };
        let key = |v: &Task| -> (k: Vec<KeyPart>)
            ensures
                k.deep_view() == by_task_id()(v.deep_view()),
            { by_task_id_of(v) };
        order::listing(&self.tasks, keep, key, Ghost(open_needing(capability@)), Ghost(by_task_id()))
    }

    /// All claims on a task.
    pub fn task_claims(&self, task_id: &str) -> (r: Vec<&TaskResultClaim>)
        ensures
            r.deep_view() == order::listed(self.deep_view().task_result_claims, claims_task(task_id@), by_claim()),
    {
        let keep = |v: &TaskResultClaim| -> (b: bool)
            ensures
                b == (claims_task(task_id@))(v.deep_view()),
            { text::same_text(v.result.task_id.as_str(), task_id) };
        let key = |v: &TaskResultClaim| -> (k: Vec<KeyPart>)
            ensures
                k.deep_view() == by_claim()(v.deep_view()),
            { by_claim_of(v) };
        order::listing(&self.task_result_claims, keep, key, Ghost(claims_task(task_id@)), Ghost(by_claim()))
    }

    /// All claims of an agent.
    pub fn agent_claims(&self, executor: &Did) -> (r: Vec<&TaskResultClaim>)
        ensures
            r.deep_view() == order::listed(self.deep_view().task_result_claims, claimed_by(executor.deep_view()), by_agent_claim()),
    {
        let keep = |v: &TaskResultClaim| -> (b: bool)
            ensures
                b == (claimed_by(executor.deep_view()))(v.deep_view()),
            { v.result.executor.same(executor) };
        let key = |v: &TaskResultClaim| -> (k: Vec<KeyPart>)
            ensures
                k.deep_view() == by_agent_claim()(v.deep_view()),
            { by_agent_claim_of(v) };
        order::listing(&self.task_result_claims, keep, key, Ghost(claimed_by(executor.deep_view())), Ghost(by_agent_claim()))
    }

    /// The attestations that are known of a task.
    pub fn task_execution_attestations(&self, task_id: &str) -> (r: Vec<&ExecutionAttestation>)
        ensures
            r.deep_view() == order::listed(self.deep_view().task_execution_attestations, attests_task(task_id@), by_attestation()),
    {
        let keep = |v: &ExecutionAttestation| -> (b: bool)
            ensures
                b == (attests_task(task_id@))(v.deep_view()),
            { text::same_text(v.task_id.as_str(), task_id) };
        let key = |v: &ExecutionAttestation| -> (k: Vec<KeyPart>)
            ensures
                k.deep_view() == by_attestation()(v.deep_view()),
            { by_attestation_of(v) };
        order::listing(&self.task_execution_attestations, keep, key, Ghost(attests_task(task_id@)), Ghost(by_attestation()))
    }

    /// The adopted results of an agent.
    pub fn agent_task_results(&self, executor: &Did) -> (r: Vec<&TaskResult>)
        ensures
            r.deep_view() == order::listed(self.deep_view().task_results, made_by(executor.deep_view()), by_result()),
    {
        let keep = |v: &TaskResult| -> (b: bool)
            ensures
                b == (made_by(executor.deep_view()))(v.deep_view()),
            { v.executor.same(executor) };
        let key = |v: &TaskResult| -> (k: Vec<KeyPart>)
            ensures
                k.deep_view() == by_result()(v.deep_view()),
            { by_result_of(v) };
        order::listing(&self.task_results, keep, key, Ghost(made_by(executor.deep_view())), Ghost(by_result()))
    }

    /// The disputes of a task.
    pub fn task_disputes(&self, task_id: &str) -> (r: Vec<&TaskDispute>)
        ensures
            r.deep_view() == order::listed(self.deep_view().task_disputes, disputes_task(task_id@), by_dispute()),
    {
        let keep = |v: &TaskDispute| -> (b: bool)
            ensures
                b == (disputes_task(task_id@))(v.deep_view()),
            { text::same_text(v.task_id.as_str(), task_id) };
        let key = |v: &TaskDispute| -> (k: Vec<KeyPart>)
            ensures
                k.deep_view() == by_dispute()(v.deep_view()),
            { by_dispute_of(v) };
        order::listing(&self.task_disputes, keep, key, Ghost(disputes_task(task_id@)), Ghost(by_dispute()))
    }

    /// The results that are claimed of a task.
    pub fn task_result_claims(&self, task_id: &str) -> (r: Vec<&TaskResult>)
        ensures
            r.deep_view() == claimed_results(
                order::listed(
                    self.deep_view().task_result_claims,
                    claims_task(task_id@),
                    by_claim(),
                ),
            ),
    {
        results_of(self.task_claims(task_id))
    }

    /// The results that an agent claims.
    pub fn agent_task_result_claims(&self, executor: &Did) -> (r: Vec<&TaskResult>)
        ensures
            r.deep_view() == claimed_results(
                order::listed(
                    self.deep_view().task_result_claims,
                    claimed_by(executor.deep_view()),
                    by_agent_claim(),
                ),
            ),
    {
        results_of(self.agent_claims(executor))
    }

    /// The attestations that support a result.
    pub fn task_result_attestations<'a>(&'a self, result: &'a TaskResult) -> (r: Vec<
        &'a ExecutionAttestation,
    >)
        ensures
            r.deep_view() == support(self.deep_view(), result.deep_view()),
    {
        match &result.receipt {
            None => {
                let none: Vec<&'a ExecutionAttestation> = Vec::new();
                assert(none.deep_view() =~= Seq::<ExecutionAttestationView>::empty());
                none
            },
            Some(receipt) => {
                let known = self.task_execution_attestations(result.task_id.as_str());
                let mut all: Vec<&'a ExecutionAttestation> = Vec::new();
                let mut i: usize = 0;
                while i < result.attestations.len()
                    invariant
                        i <= result.attestations@.len(),
                        all@.len() == i,
                        forall|j: int|
                            0 <= j < i ==> (#[trigger] all@[j]).deep_view()
                                == result.attestations.deep_view()[j],
                    decreases result.attestations@.len() - i,
                {
                    all.push(&result.attestations[i]);
                    i = i + 1;
                }
                let ghost own = result.attestations.deep_view();
                assert(all.deep_view() =~= own);
                let mut k: usize = 0;
                while k < known.len()
                    invariant
                        k <= known@.len(),
                        own.len() == result.attestations@.len(),
                        all@.len() == own.len() + k,
                        forall|j: int|
                            0 <= j < own.len() ==> (#[trigger] all@[j]).deep_view() == own[j],
                        forall|j: int|
                            own.len() <= j < all@.len() ==> (#[trigger] all@[j]).deep_view()
                                == known.deep_view()[j - own.len()],
                    decreases known@.len() - k,
                {
                    all.push(known[k]);
                    k = k + 1;
                }
                assert(all.deep_view() =~= own + known.deep_view());
                let keep = |a: &'a ExecutionAttestation| -> (b: bool)
                    ensures
                        b == agrees(result.deep_view(), receipt.deep_view())(a.deep_view()),
                    {
                        a.validate_against_receipt(receipt).is_ok() && a.stdout_cid.same(
                            &text_cid(result.stdout.as_str()),
                        ) && a.stderr_cid.same(&text_cid(result.stderr.as_str()))
                    };
                let key = |a: &'a ExecutionAttestation| -> (k: Vec<KeyPart>)
                    ensures
                        k.deep_view() == by_observation()(a.deep_view()),
                    { by_observation_of(a) };
                let mark = |a: &'a ExecutionAttestation| -> (k: String)
                    ensures
                        k@ == attestation_mark()(a.deep_view()),
                    { attestation_key_of(a) };
                let agreeing = order::kept(
                    all,
                    keep,
                    Ghost(agrees(result.deep_view(), receipt.deep_view())),
                );
                let ordered = order::sorted(agreeing, key, Ghost(by_observation()));
                order::unrepeated(ordered, mark, Ghost(attestation_mark()))
            },
        }
    }

    fn shows_of(&self, agent: &Did, result: &TaskResult) -> (r: bool)
        ensures
            r == shows(self.deep_view(), agent.deep_view(), result.deep_view()),
    {
        if !result.executor.same(agent) || !result.success {
            return false;
        }
        match self.tasks.get(&result.task_id) {
            None => false,
            Some(task) => {
                let assigned = match &task.assigned_to {
                    Some(did) => did.same(agent),
                    None => false,
                };
                match &result.receipt {
                    None => false,
                    Some(receipt) => assigned && receipt.verify_signature().is_ok()
                        && task_result_matches_task_commitment(result, task),
                }
            },
        }
    }

    fn shows_capability_of(&self, agent: &Did, name: &str, result: &TaskResult) -> (r: bool)
        ensures
            r == shows_capability(self.deep_view(), agent.deep_view(), name@)(result.deep_view()),
    {
        if !self.shows_of(agent, result) {
            return false;
        }
        match self.tasks.get(&result.task_id) {
            None => false,
            Some(task) => text::same_text(task.required_capability.as_str(), name),
        }
    }

    fn shown(&self, agent: &Did) -> (r: Group<String>)
        ensures
            r.members() == shown_names(
                self.deep_view(),
                agent.deep_view(),
                self.deep_view().task_results,
            ),
    {
        let ghost v = self.deep_view();
        let ghost rows = self.task_results.rows();
        let n = self.task_results.len();
        let mut names: Group<String> = Group::new();
        let mut i: usize = 0;
        while i < n
            invariant
                i <= n,
                n == rows.len(),
                v == self.deep_view(),
                rows == self.task_results.rows(),
                names.members() == shown_names(
                    v,
                    agent.deep_view(),
                    rows.subrange(0, i as int),
                ),
            decreases n - i,
        {
            proof {
                let upto = rows.subrange(0, i + 1);
                assert(upto.drop_last() =~= rows.subrange(0, i as int));
                assert(upto.last() == rows[i as int]);
            }
            let result = self.task_results.value_at(i);
            if self.shows_of(agent, result) {
                match self.tasks.get(&result.task_id) {
                    Some(task) => {
                        names.insert(task.required_capability.twin());
                    },
                    None => {},
                }
            }
            i = i + 1;
        }
        assert(rows.subrange(0, i as int) =~= rows);
        names
    }

    fn shown_results(&self, agent: &Did, name: &str) -> (r: Vec<&TaskResult>)
        ensures
            r.deep_view() == order::listed(
                self.deep_view().task_results,
                shows_capability(self.deep_view(), agent.deep_view(), name@),
                by_latest(),
            ),
    {
        let keep = |v: &TaskResult| -> (b: bool)
            ensures
                b == shows_capability(self.deep_view(), agent.deep_view(), name@)(
                        v.deep_view(),
                    ),
            { self.shows_capability_of(agent, name, v) };
        let key = |v: &TaskResult| -> (k: Vec<KeyPart>)
            ensures
                k.deep_view() == by_latest()(v.deep_view()),
            { by_latest_of(v) };
        order::listing(&self.task_results, keep, key, Ghost(shows_capability(self.deep_view(), agent.deep_view(), name@)), Ghost(by_latest()))
    }

    fn evidence_of(&self, agent: &Did, name: &str) -> (r: VerifiedCapability)
        requires
            shown_names(
                self.deep_view(),
                agent.deep_view(),
                self.deep_view().task_results,
            ).contains(name@),
        ensures
            r.deep_view() == evidence(self.deep_view(), agent.deep_view(), name@),
    {
        let results = self.shown_results(agent, name);
        proof {
            lemma_shown(
                self.deep_view(),
                agent.deep_view(),
                self.deep_view().task_results,
                name@,
            );
            lemma_listed_some(
                self.deep_view().task_results,
                shows_capability(self.deep_view(), agent.deep_view(), name@),
                by_latest(),
            );
        }
        let successful_tasks = results.len();
        let latest_task_id = results[0].task_id.twin();
        let latest_observed_at = task_result_claim_finished_at(results[0]);
        assert(results@[0].deep_view() == results.deep_view()[0]);
        let keep = |v: &TaskResult| -> (b: bool)
            ensures
                b == attested(self.deep_view())(v.deep_view()),
            { self.task_result_attestations(v).len() > 0 };
        let supported = order::kept(results, keep, Ghost(attested(self.deep_view())));
        VerifiedCapability {
            name: text::owned(name),
            successful_tasks,
            independently_attested_tasks: supported.len(),
            latest_task_id,
            latest_observed_at,
        }
    }

    /// The capabilities that adopted results show an agent to have, by name.
    pub fn agent_verified_capabilities(&self, agent: &Did) -> (r: Vec<VerifiedCapability>)
        ensures
            r.deep_view() == verified_capabilities(self.deep_view(), agent.deep_view()),
    {
        let names = self.shown(agent);
        let ghost v = self.deep_view();
        let ghost who = agent.deep_view();
        let n = names.len();
        let mut all: Vec<VerifiedCapability> = Vec::new();
        let mut keys: Vec<Vec<KeyPart>> = Vec::new();
        while all.len() < n
            invariant
                n == names.members().len(),
                v == self.deep_view(),
                who == agent.deep_view(),
                names.members() == shown_names(v, who, v.task_results),
                all@.len() <= n,
                keys@.len() == all@.len(),
                forall|j: int|
                    0 <= j < all@.len() ==> (#[trigger] all@[j]).deep_view() == evidence(
                        v,
                        who,
                        names.members()[j],
                    ),
                forall|j: int|
                    0 <= j < all@.len() ==> (#[trigger] keys@[j]).deep_view() == by_capability()(
                        all@[j].deep_view(),
                    ),
            decreases n - all@.len(),
        {
            let name = names.at(all.len());
            assert(names.members().contains(names.members()[all@.len() as int]));
            let one = self.evidence_of(agent, name.as_str());
            keys.push(by_capability_of(&one));
            all.push(one);
        }
        proof {
            let want = Seq::new(
                names.members().len(),
                |i: int| evidence(v, who, names.members()[i]),
            );
            assert(all.deep_view() =~= want);
        }
        order::sort_keyed(all, keys, Ghost(by_capability()))
    }

    fn made_offer(&self, task_id: &str, bidder: &Did, price: u64) -> (r: bool)
        ensures
            r == offered(offers_on(self.deep_view(), task_id@), bidder.deep_view(), price),
    {
        let offers = self.task_offers(task_id);
        let ghost all = offers.deep_view();
        let mut i: usize = 0;
        while i < offers.len()
            invariant
                i <= offers@.len(),
                all == offers.deep_view(),
                all == offers_on(self.deep_view(), task_id@),
                forall|j: int|
                    0 <= j < i ==> !((#[trigger] all[j]).bidder == bidder.deep_view()
                        && all[j].price == price),
            decreases offers@.len() - i,
        {
            if offers[i].bidder.same(bidder) && offers[i].price == price {
                assert(all[i as int].bidder == bidder.deep_view());
                return true;
            }
            i = i + 1;
        }
        false
    }

    fn acceptance_can_apply(&self, task_id: &str, acceptance: &TaskAcceptance) -> (r: bool)
        ensures
            r == acceptable(self.deep_view(), task_id@)(acceptance.deep_view()),
    {
        match self.task(task_id) {
            None => false,
            Some(task) => text::same_text(acceptance.task_id.as_str(), task_id)
                && task.publisher.same(&acceptance.publisher) && task.is_open() && self.made_offer(
                task_id,
                &acceptance.bidder,
                acceptance.price,
            ),
        }
    }

    fn acceptance_is_effective(&self, task_id: &str, acceptance: &TaskAcceptance) -> (r: bool)
        ensures
            r == effective(self.deep_view(), task_id@)(acceptance.deep_view()),
    {
        match self.task(task_id) {
            None => false,
            Some(task) => {
                let assigned = match &task.assigned_to {
                    Some(did) => did.same(&acceptance.bidder),
                    None => false,
                };
                text::same_text(acceptance.task_id.as_str(), task_id) && task.publisher.same(
                    &acceptance.publisher,
                ) && assigned && self.made_offer(task_id, &acceptance.bidder, acceptance.price)
            },
        }
    }

    fn cancellation_can_apply(&self, task_id: &str, cancellation: &TaskCancellation) -> (r: bool)
        ensures
            r == cancellable(self.deep_view(), task_id@)(cancellation.deep_view()),
    {
        match self.task(task_id) {
            None => false,
            Some(task) => text::same_text(cancellation.task_id.as_str(), task_id)
                && task.publisher.same(&cancellation.publisher) && !task.is_done(),
        }
    }

    fn cancellation_is_effective(&self, task_id: &str, cancellation: &TaskCancellation) -> (r: bool)
        ensures
            r == cancelled_by(self.deep_view(), task_id@)(cancellation.deep_view()),
    {
        match self.task(task_id) {
            None => false,
            Some(task) => text::same_text(cancellation.task_id.as_str(), task_id) && task.state
                == TaskState::Cancelled && task.publisher.same(&cancellation.publisher),
        }
    }

    fn claim_can_apply(&self, task_id: &str, claim: &TaskResultClaim) -> (r: bool)
        ensures
            r == adoptable(self.deep_view(), task_id@)(claim.deep_view()),
    {
        match self.task(task_id) {
            None => false,
            Some(task) => {
                let assigned = match &task.assigned_to {
                    Some(did) => did.same(&claim.result.executor),
                    None => false,
                };
                text::same_text(claim.result.task_id.as_str(), task_id) && task.state
                    != TaskState::Published && task.state != TaskState::Cancelled && assigned
                    && task_result_matches_task_commitment(&claim.result, task)
            },
        }
    }

    fn applicable_acceptances(&self, task_id: &str) -> (r: Vec<&TaskAcceptance>)
        ensures
            r.deep_view() == order::listed(self.deep_view().task_acceptances, acceptable(self.deep_view(), task_id@), by_acceptance()),
    {
        let keep = |v: &TaskAcceptance| -> (b: bool)
            ensures
                b == (acceptable(self.deep_view(), task_id@))(v.deep_view()),
            { self.acceptance_can_apply(task_id, v) };
        let key = |v: &TaskAcceptance| -> (k: Vec<KeyPart>)
            ensures
                k.deep_view() == by_acceptance()(v.deep_view()),
            { by_acceptance_of(v) };
        order::listing(&self.task_acceptances, keep, key, Ghost(acceptable(self.deep_view(), task_id@)), Ghost(by_acceptance()))
    }

    fn effective_acceptances(&self, task_id: &str) -> (r: Vec<&TaskAcceptance>)
        ensures
            r.deep_view() == order::listed(self.deep_view().task_acceptances, effective(self.deep_view(), task_id@), by_acceptance()),
    {
        let keep = |v: &TaskAcceptance| -> (b: bool)
            ensures
                b == (effective(self.deep_view(), task_id@))(v.deep_view()),
            { self.acceptance_is_effective(task_id, v) };
        let key = |v: &TaskAcceptance| -> (k: Vec<KeyPart>)
            ensures
                k.deep_view() == by_acceptance()(v.deep_view()),
            { by_acceptance_of(v) };
        order::listing(&self.task_acceptances, keep, key, Ghost(effective(self.deep_view(), task_id@)), Ghost(by_acceptance()))
    }

    fn applicable_cancellations(&self, task_id: &str) -> (r: Vec<&TaskCancellation>)
        ensures
            r.deep_view() == order::listed(self.deep_view().task_cancellations, cancellable(self.deep_view(), task_id@), by_cancellation()),
    {
        let keep = |v: &TaskCancellation| -> (b: bool)
            ensures
                b == (cancellable(self.deep_view(), task_id@))(v.deep_view()),
            { self.cancellation_can_apply(task_id, v) };
        let key = |v: &TaskCancellation| -> (k: Vec<KeyPart>)
            ensures
                k.deep_view() == by_cancellation()(v.deep_view()),
            { by_cancellation_of(v) };
        order::listing(&self.task_cancellations, keep, key, Ghost(cancellable(self.deep_view(), task_id@)), Ghost(by_cancellation()))
    }

    fn effective_cancellations(&self, task_id: &str) -> (r: Vec<&TaskCancellation>)
        ensures
            r.deep_view() == order::listed(self.deep_view().task_cancellations, cancelled_by(self.deep_view(), task_id@), by_cancellation()),
    {
        let keep = |v: &TaskCancellation| -> (b: bool)
            ensures
                b == (cancelled_by(self.deep_view(), task_id@))(v.deep_view()),
            { self.cancellation_is_effective(task_id, v) };
        let key = |v: &TaskCancellation| -> (k: Vec<KeyPart>)
            ensures
                k.deep_view() == by_cancellation()(v.deep_view()),
            { by_cancellation_of(v) };
        order::listing(&self.task_cancellations, keep, key, Ghost(cancelled_by(self.deep_view(), task_id@)), Ghost(by_cancellation()))
    }

    fn applicable_claims(&self, task_id: &str) -> (r: Vec<&TaskResultClaim>)
        ensures
            r.deep_view() == order::listed(self.deep_view().task_result_claims, adoptable(self.deep_view(), task_id@), by_claim_time()),
    {
        let keep = |v: &TaskResultClaim| -> (b: bool)
            ensures
                b == (adoptable(self.deep_view(), task_id@))(v.deep_view()),
            { self.claim_can_apply(task_id, v) };
        let key = |v: &TaskResultClaim| -> (k: Vec<KeyPart>)
            ensures
                k.deep_view() == by_claim_time()(v.deep_view()),
            { by_claim_time_of(v) };
        order::listing(&self.task_result_claims, keep, key, Ghost(adoptable(self.deep_view(), task_id@)), Ghost(by_claim_time()))
    }

    /// The acceptance in effect for a task.
    pub fn task_acceptance(&self, task_id: &str) -> (r: Option<&TaskAcceptance>)
        ensures
            r.deep_view() == order::first(
                order::listed(
                    self.deep_view().task_acceptances,
                    effective(self.deep_view(), task_id@),
                    by_acceptance(),
                ),
            ),
    {
        let all = self.effective_acceptances(task_id);
        if all.len() > 0 {
            assert(all.deep_view()[0] == all@[0].deep_view());
            Some(all[0])
        } else {
            None
        }
    }

    /// The cancellation in effect for a task.
    pub fn task_cancellation(&self, task_id: &str) -> (r: Option<&TaskCancellation>)
        ensures
            r.deep_view() == order::first(
                order::listed(
                    self.deep_view().task_cancellations,
                    cancelled_by(self.deep_view(), task_id@),
                    by_cancellation(),
                ),
            ),
    {
        let all = self.effective_cancellations(task_id);
        if all.len() > 0 {
            assert(all.deep_view()[0] == all@[0].deep_view());
            Some(all[0])
        } else {
            None
        }
    }

    fn select_applicable_task_result(&self, task_id: &str) -> (r: Option<TaskResultClaim>)
        ensures
            r.deep_view() == adopted_claim(self.deep_view(), task_id@),
    {
        let all = self.applicable_claims(task_id);
        if all.len() > 0 {
            assert(all.deep_view()[0] == all@[0].deep_view());
            Some(all[0].twin())
        } else {
            None
        }
    }

    fn apply_known_task_result(&mut self, task_id: &str) -> (r: Vec<TaskMarketEffect>)
        ensures
            (final(self).deep_view(), r.deep_view()) == with_result(old(self).deep_view(), task_id@),
    {
        let key = text::owned(task_id);
        let mut effects: Vec<TaskMarketEffect> = Vec::new();
        assert(effects.deep_view() =~= Seq::<TaskMarketEffectView>::empty());
        if self.applied_task_results.contains(&key) {
            return effects;
        }
        let claim = match self.select_applicable_task_result(task_id) {
            None => {
                return effects;
            },
            Some(claim) => claim,
        };
        proof {
            lemma_adopted(self.deep_view(), task_id@);
        }
        let mut task = match self.tasks.get(&key) {
            None => {
                return effects;
            },
            Some(task) => task.twin(),
        };
        let ghost before = task.deep_view();
        match task_result_workspace_snapshot(&claim.result) {
            Some(snapshot) => {
                effects.push(TaskMarketEffect::WorkspaceSnapshot(snapshot));
                assert(effects.deep_view() =~= seq![
                    TaskMarketEffectView::WorkspaceSnapshot(snapshot.deep_view()),
                ]);
            },
            None => {},
        }
        let ghost snapshots = effects.deep_view();
        if !task.publisher.same(&claim.result.executor) {
            let interaction = interaction_of(&task, &claim);
            effects.push(TaskMarketEffect::Interaction(interaction));
            assert(effects.deep_view() =~= snapshots + seq![
                TaskMarketEffectView::Interaction(interaction.deep_view()),
            ]);
        }
        assert(effects.deep_view() =~= adoption_effects(before, claim.deep_view()));
        if claim.result.success {
            task.complete();
        } else {
            task.fail();
        }
        self.applied_task_results.insert(text::owned(task_id));
        self.tasks.insert(text::owned(task_id), task);
        self.task_results.insert(key, claim.result);
        effects
    }

    fn apply_known_task_acceptance(&mut self, task_id: &str) -> (r: Vec<TaskMarketEffect>)
        ensures
            (final(self).deep_view(), r.deep_view()) == with_acceptance(
                old(self).deep_view(),
                task_id@,
            ),
    {
        let all = self.applicable_acceptances(task_id);
        proof {
            lemma_accepted(self.deep_view(), task_id@);
        }
        if all.len() == 0 {
            let none: Vec<TaskMarketEffect> = Vec::new();
            assert(none.deep_view() =~= Seq::<TaskMarketEffectView>::empty());
            return none;
        }
        let bidder = all[0].bidder.twin();
        assert(all.deep_view()[0] == all@[0].deep_view());
        let mut task = match self.task(task_id) {
            None => {
                return Vec::new();
            },
            Some(task) => task.twin(),
        };
        task.accept_bid(&bidder);
        self.tasks.insert(text::owned(task_id), task);
        self.apply_known_task_result(task_id)
    }

    fn apply_known_task_cancellation(&mut self, task_id: &str)
        ensures
            final(self).deep_view() == with_cancellation(old(self).deep_view(), task_id@),
    {
        let count = self.applicable_cancellations(task_id).len();
        proof {
            lemma_cancelled(self.deep_view(), task_id@);
        }
        if count == 0 {
            return;
        }
        let mut task = match self.task(task_id) {
            None => {
                return;
            },
            Some(task) => task.twin(),
        };
        task.cancel();
        self.tasks.insert(text::owned(task_id), task);
    }

    fn apply_known_decisions(&mut self, task_id: &str) -> (r: Vec<TaskMarketEffect>)
        ensures
            (final(self).deep_view(), r.deep_view()) == with_decisions(
                old(self).deep_view(),
                task_id@,
            ),
    {
        let effects = self.apply_known_task_acceptance(task_id);
        self.apply_known_task_cancellation(task_id);
        effects
    }

    /// Publishes a task.
    pub fn publish_task(&mut self, task: TaskSpec) -> (r: Vec<TaskMarketEffect>)
        ensures
            (final(self).deep_view(), r.deep_view()) == with_task(
                old(self).deep_view(),
                task.deep_view(),
            ),
    {
        let task = Task::from_spec(task);
        let task_id = task.id.twin();
        self.tasks.insert_new(task_id.twin(), task);
        let first = self.apply_known_decisions(task_id.as_str());
        let second = self.apply_known_task_result(task_id.as_str());
        chained(first, second)
    }

    /// Takes note of an offer.
    pub fn record_offer(&mut self, offer: TaskOffer) -> (r: Vec<TaskMarketEffect>)
        ensures
            (final(self).deep_view(), r.deep_view()) == with_offer(
                old(self).deep_view(),
                offer.deep_view(),
            ),
    {
        let ghost given = offer.deep_view();
        let task_id = offer.task_id.twin();
        let mut offers = match self.task_offers.get(&task_id) {
            Some(offers) => offers.twin(),
            None => Vec::new(),
        };
        let ghost before = offers.deep_view();
        assert(before =~= offers_on(self.deep_view(), given.task_id));
        let mut i: usize = 0;
        while i < offers.len()
            invariant
                i <= offers@.len(),
                before == offers.deep_view(),
                before == offers_on(old(self).deep_view(), given.task_id),
                given == offer.deep_view(),
                *self == *old(self),
                forall|j: int| 0 <= j < i ==> (#[trigger] before[j]).bidder != given.bidder,
            decreases offers@.len() - i,
        {
            if offers[i].bidder.same(&offer.bidder) {
                assert(before[i as int].bidder == given.bidder);
                let none: Vec<TaskMarketEffect> = Vec::new();
                assert(none.deep_view() =~= Seq::<TaskMarketEffectView>::empty());
                return none;
            }
            i = i + 1;
        }
        offers.push(offer);
        assert(offers.deep_view() =~= before.push(given));
        let mut keys: Vec<Vec<KeyPart>> = Vec::new();
        while keys.len() < offers.len()
            invariant
                keys@.len() <= offers@.len(),
                forall|j: int|
                    0 <= j < keys@.len() ==> (#[trigger] keys@[j]).deep_view() == by_price()(
                        offers@[j].deep_view(),
                    ),
            decreases offers@.len() - keys@.len(),
        {
            let key = by_price_of(&offers[keys.len()]);
            keys.push(key);
        }
        let sorted = order::sort_keyed(offers, keys, Ghost(by_price()));
        self.task_offers.insert(task_id.twin(), sorted);
        self.apply_known_decisions(task_id.as_str())
    }

    /// Takes note of an acceptance.
    pub fn record_acceptance(&mut self, acceptance: TaskAcceptance) -> (r: Vec<TaskMarketEffect>)
        ensures
            (final(self).deep_view(), r.deep_view()) == with_known_acceptance(
                old(self).deep_view(),
                acceptance.deep_view(),
            ),
    {
        let task_id = acceptance.task_id.twin();
        let key = acceptance_key_of(&acceptance);
        self.task_acceptances.insert_new((task_id.twin(), key), acceptance);
        self.apply_known_decisions(task_id.as_str())
    }

    /// Takes note of a cancellation.
    pub fn record_cancellation(&mut self, cancellation: TaskCancellation)
        ensures
            final(self).deep_view() == with_known_cancellation(
                old(self).deep_view(),
                cancellation.deep_view(),
            ),
    {
        let task_id = cancellation.task_id.twin();
        let key = cancellation_key_of(&cancellation);
        self.task_cancellations.insert_new((task_id.twin(), key), cancellation);
        self.apply_known_task_cancellation(task_id.as_str());
    }

    /// Takes note of a result.
    pub fn record_result(&mut self, result: TaskResult, timestamp: u64) -> (r: Vec<
        TaskMarketEffect,
    >)
        ensures
            (final(self).deep_view(), r.deep_view()) == with_claim(
                old(self).deep_view(),
                result.deep_view(),
                timestamp,
            ),
    {
        let task_id = result.task_id.twin();
        let key = (task_id.twin(), task_result_claim_id(&result));
        if self.task_result_claims.insert(key, TaskResultClaim { result, timestamp }) {
            let none: Vec<TaskMarketEffect> = Vec::new();
            assert(none.deep_view() =~= Seq::<TaskMarketEffectView>::empty());
            return none;
        }
        self.apply_known_task_result(task_id.as_str())
    }

    /// Takes note of an attestation, if its attestor signed it.
    pub fn record_execution_attestation(&mut self, attestation: ExecutionAttestation)
        ensures
            final(self).deep_view() == with_attestation(
                old(self).deep_view(),
                attestation.deep_view(),
            ),
    {
        if attestation.verify_signature().is_err() {
            return;
        }
        let key = (attestation.task_id.twin(), attestation_key_of(&attestation));
        self.task_execution_attestations.insert_new(key, attestation);
    }

    /// Takes note of a dispute; a new one is an interaction.
    pub fn record_dispute(&mut self, dispute: TaskDispute) -> (r: Option<TaskMarketEffect>)
        ensures
            (final(self).deep_view(), r.deep_view()) == with_dispute(
                old(self).deep_view(),
                dispute.deep_view(),
            ),
    {
        let key = dispute_key_of(&dispute);
        let interaction = disputed_of(&dispute);
        if self.task_disputes.insert(key, dispute) {
            None
        } else {
            Some(TaskMarketEffect::Interaction(interaction))
        }
    }
}

/// A board without tasks.
pub open spec fn empty_board() -> TaskMarketProjectionView {
    TaskMarketProjectionView {
        tasks: Seq::empty(),
        task_offers: Seq::empty(),
        task_acceptances: Seq::empty(),
        task_cancellations: Seq::empty(),
        task_results: Seq::empty(),
        task_result_claims: Seq::empty(),
        task_execution_attestations: Seq::empty(),
        task_disputes: Seq::empty(),
        applied_task_results: Seq::empty(),
    }
}

/// The results of claims.
pub open spec fn claimed_results(claims: Seq<TaskResultClaimView>) -> Seq<TaskResultView> {
    Seq::new(claims.len(), |i: int| claims[i].result)
}

fn results_of<'a>(claims: Vec<&'a TaskResultClaim>) -> (r: Vec<&'a TaskResult>)
    ensures
        r.deep_view() == claimed_results(claims.deep_view()),
{
    let mut r: Vec<&'a TaskResult> = Vec::new();
    while r.len() < claims.len()
        invariant
            r@.len() <= claims@.len(),
            forall|j: int|
                0 <= j < r@.len() ==> (#[trigger] r@[j]).deep_view()
                    == claims.deep_view()[j].result,
        decreases claims@.len() - r@.len(),
    {
        let claim: &'a TaskResultClaim = claims[r.len()];
        r.push(&claim.result);
    }
    assert(r.deep_view() =~= claimed_results(claims.deep_view()));
    r
}

fn chained(first: Vec<TaskMarketEffect>, second: Vec<TaskMarketEffect>) -> (r: Vec<
    TaskMarketEffect,
>)
    ensures
        r.deep_view() == first.deep_view() + second.deep_view(),
{
    let mut r = first;
    let mut rest = second;
    r.append(&mut rest);
    assert(r.deep_view() =~= first.deep_view() + second.deep_view());
    r
}

fn task_result_matches_task_commitment(result: &TaskResult, task: &Task) -> (r: bool)
    ensures
        r == commits_to(result.deep_view(), task.deep_view()),
{
    match &result.receipt {
        Some(receipt) => receipt.command.same(&task.command) && same_texts(
            &receipt.args,
            &task.args,
        ),
        None => !result.success,
    }
}

fn task_result_workspace_snapshot(result: &TaskResult) -> (r: Option<WorkspaceSnapshot>)
    ensures
        r.deep_view() == implied_snapshot(result.deep_view()),
{
    match &result.receipt {
        None => None,
        Some(receipt) => match (&receipt.workspace, &receipt.output_root) {
            (Some(workspace), Some(root)) => {
                let note = text::joined_pair("task ", result.task_id.as_str());
                Some(
                    WorkspaceSnapshot {
                        workspace: workspace.twin(),
                        actor: receipt.executor.twin(),
                        root: root.twin(),
                        label: Some(text::owned("task-result")),
                        note: Some(text::joined_pair(note.as_str(), " result")),
                        timestamp: receipt.finished_at,
                    },
                )
            },
            _ => None,
        },
    }
}

fn interaction_of(task: &Task, claim: &TaskResultClaim) -> (r: Interaction)
    ensures
        r.deep_view() == implied_interaction(task.deep_view(), claim.deep_view()),
{
    Interaction {
        id: text::joined_pair("task-result:", claim.result.task_id.as_str()),
        from: task.publisher.twin(),
        to: claim.result.executor.twin(),
        workspace: match &claim.result.receipt {
            Some(receipt) => receipt.workspace.twin(),
            None => None,
        },
        topic: task.description.twin(),
        outcome: if claim.result.success {
            InteractionOutcome::Success
        } else {
            InteractionOutcome::Failure
        },
        timestamp: claim.timestamp,
        evidence: Some(claim.result.task_id.twin()),
    }
}

fn disputed_of(d: &TaskDispute) -> (r: Interaction)
    ensures
        r.deep_view() == disputed_interaction(d.deep_view()),
{
    let claim = text_or_empty(&d.claim_id);
    let id = text::joined_pair("task-dispute:", d.task_id.as_str());
    let id = text::joined_pair(id.as_str(), ":");
    let id = text::joined_pair(id.as_str(), d.disputer.as_str());
    let id = text::joined_pair(id.as_str(), ":");
    let id = text::joined_pair(id.as_str(), d.target.as_str());
    let id = text::joined_pair(id.as_str(), ":");
    let id = text::joined_pair(id.as_str(), claim.as_str());
    let topic = text::joined_pair("task dispute: ", d.reason.as_str());
    Interaction {
        id,
        from: d.disputer.twin(),
        to: d.target.twin(),
        workspace: None,
        topic: match &d.claim_id {
            Some(claim) => {
                let topic = text::joined_pair(topic.as_str(), " (");
                let topic = text::joined_pair(topic.as_str(), claim.as_str());
                text::joined_pair(topic.as_str(), ")")
            },
            None => topic,
        },
        outcome: InteractionOutcome::Dispute,
        timestamp: d.timestamp,
        evidence: Some(
            match &d.evidence {
                Some(evidence) => evidence.twin(),
                None => match &d.claim_id {
                    Some(claim) => text::joined_pair("claim:", claim.as_str()),
                    None => d.task_id.twin(),
                },
            },
        ),
    }
}

/// A value in a listing is one that is kept.
pub proof fn lemma_listed_kept<K, V>(
    rows: Seq<(K, V)>,
    keep: spec_fn(V) -> bool,
    key: spec_fn(V) -> SortKey,
)
    ensures
        forall|i: int|
            0 <= i < order::listed(rows, keep, key).len() ==> keep(
                #[trigger] order::listed(rows, keep, key)[i],
            ) && table::values(rows).contains(order::listed(rows, keep, key)[i]),
{
    let all = table::values(rows);
    let some = all.filter(keep);
    let out = order::listed(rows, keep, key);
    order::lemma_sort_by_key(some, key);
    assert forall|i: int| 0 <= i < out.len() implies keep(#[trigger] out[i]) && all.contains(
        out[i],
    ) by {
        broadcast use vstd::seq_lib::group_to_multiset_ensures;

        assert(out.contains(out[i]));
        assert(out.to_multiset().count(out[i]) > 0);
        assert(some.contains(out[i]));
        all.lemma_filter_contains_rev(keep, out[i]);
        broadcast use vstd::seq_lib::group_seq_properties;

        let j = some.index_of(out[i]);
        assert(keep(some[j]) && all.contains(some[j])) by {
            broadcast use vstd::seq_lib::group_filter_ensures;

        }
    }
}

/// A listing of rows one of which is kept is not empty.
proof fn lemma_listed_some<K, V>(
    rows: Seq<(K, V)>,
    keep: spec_fn(V) -> bool,
    key: spec_fn(V) -> SortKey,
)
    requires
        exists|i: int| 0 <= i < rows.len() && keep((#[trigger] rows[i]).1),
    ensures
        order::listed(rows, keep, key).len() > 0,
{
    let all = table::values(rows);
    let i = choose|i: int| 0 <= i < rows.len() && keep((#[trigger] rows[i]).1);
    order::lemma_sort_by_key(all.filter(keep), key);
    all.lemma_filter_contains(keep, i);
}

proof fn lemma_shown(
    v: TaskMarketProjectionView,
    agent: Seq<char>,
    rows: Seq<(Seq<char>, TaskResultView)>,
    name: Seq<char>,
)
    requires
        shown_names(v, agent, rows).contains(name),
    ensures
        exists|i: int|
            0 <= i < rows.len() && shows_capability(v, agent, name)((#[trigger] rows[i]).1),
    decreases rows.len(),
{
    if rows.len() > 0 {
        let front = rows.drop_last();
        let rest = shown_names(v, agent, front);
        let r = rows[rows.len() - 1].1;
        if rest.contains(name) {
            lemma_shown(v, agent, front, name);
            let i = choose|i: int|
                0 <= i < front.len() && shows_capability(v, agent, name)((#[trigger] front[i]).1);
            assert(rows[i] == front[i]);
        } else {
            let all = shown_names(v, agent, rows);
            let k = all.index_of(name);
            if k < rest.len() {
                assert(rest[k] == name);
            }
            assert(shows_capability(v, agent, name)(rows[rows.len() - 1].1));
        }
    }
}

proof fn lemma_adopted(v: TaskMarketProjectionView, task_id: Seq<char>)
    ensures
        adopted_claim(v, task_id) matches Some(claim) ==> adoptable(v, task_id)(claim)
            && table::values(v.task_result_claims).contains(claim),
{
    lemma_listed_kept(v.task_result_claims, adoptable(v, task_id), by_claim_time());
    let all = order::listed(v.task_result_claims, adoptable(v, task_id), by_claim_time());
    if all.len() > 0 {
        assert(adoptable(v, task_id)(all[0]));
    }
}

proof fn lemma_accepted(v: TaskMarketProjectionView, task_id: Seq<char>)
    ensures
        order::first(
            order::listed(v.task_acceptances, acceptable(v, task_id), by_acceptance()),
        ) matches Some(a) ==> acceptable(v, task_id)(a),
{
    lemma_listed_kept(v.task_acceptances, acceptable(v, task_id), by_acceptance());
    let all = order::listed(v.task_acceptances, acceptable(v, task_id), by_acceptance());
    if all.len() > 0 {
        assert(acceptable(v, task_id)(all[0]));
    }
}

proof fn lemma_cancelled(v: TaskMarketProjectionView, task_id: Seq<char>)
    ensures
        order::first(
            order::listed(v.task_cancellations, cancellable(v, task_id), by_cancellation()),
        ) matches Some(c) ==> cancellable(v, task_id)(c),
{
    lemma_listed_kept(v.task_cancellations, cancellable(v, task_id), by_cancellation());
    let all = order::listed(v.task_cancellations, cancellable(v, task_id), by_cancellation());
    if all.len() > 0 {
        assert(cancellable(v, task_id)(all[0]));
    }
}

/// A result is adopted only from a claim by the agent that the task is assigned
/// to, while the task is neither open nor cancelled; a success only with a
/// receipt for the command of the task.
pub proof fn lemma_adoption_is_earned(v: TaskMarketProjectionView, task_id: Seq<char>)
    requires
        with_result(v, task_id).0 != v,
    ensures
        adopted_claim(v, task_id) matches Some(claim) && {
            &&& table::values(v.task_result_claims).contains(claim)
            &&& claim.result.task_id == task_id
            &&& table::holds(v.tasks, task_id)
            &&& table::at(v.tasks, task_id).assigned_to == Some(claim.result.executor)
            &&& table::at(v.tasks, task_id).state != TaskState::Published
            &&& table::at(v.tasks, task_id).state != TaskState::Cancelled
            &&& claim.result.success ==> (claim.result.receipt matches Some(receipt)
                && receipt.command == table::at(v.tasks, task_id).command && receipt.args
                == table::at(v.tasks, task_id).args)
        },
{
    lemma_adopted(v, task_id);
}

/// Adoption ends the task, as completed or as failed, keeps the result, and
/// means an interaction of publisher and executor exactly when they are two
/// agents.
#[verifier::spinoff_prover]
#[verifier::rlimit(40)]
pub proof fn lemma_adoption_takes_effect(v: TaskMarketProjectionView, task_id: Seq<char>)
    requires
        table::distinct(v.tasks),
        table::distinct(v.task_results),
        with_result(v, task_id).0 != v,
    ensures
        ({
            let claim = adopted_claim(v, task_id)->0;
            let task = table::at(v.tasks, task_id);
            let done = with_result(v, task_id);
            &&& table::find(done.0.tasks, task_id) == Some(
                TaskView {
                    state: if claim.result.success {
                        TaskState::Completed
                    } else {
                        TaskState::Failed
                    },
                    ..task
                },
            )
            &&& table::find(done.0.task_results, task_id) == Some(claim.result)
            &&& done.1.contains(TaskMarketEffectView::Interaction(implied_interaction(task, claim)))
                <==> task.publisher != claim.result.executor
            &&& forall|i: int|
                0 <= i < done.1.len() && (#[trigger] done.1[i]) is Interaction ==> done.1[i]
                    == TaskMarketEffectView::Interaction(implied_interaction(task, claim))
        }),
{
    let claim = adopted_claim(v, task_id)->0;
    let task = table::at(v.tasks, task_id);
    let effects = adoption_effects(task, claim);
    let state = if claim.result.success {
        TaskState::Completed
    } else {
        TaskState::Failed
    };
    table::lemma_put_find(v.tasks, task_id, TaskView { state, ..task }, task_id);
    table::lemma_put_find(v.task_results, task_id, claim.result, task_id);
    if task.publisher != claim.result.executor {
        assert(effects[effects.len() - 1] == TaskMarketEffectView::Interaction(
            implied_interaction(task, claim),
        ));
    }
}

/// Whether the tasks with a result are those of which one was adopted.
pub open spec fn settled(v: TaskMarketProjectionView) -> bool {
    forall|task_id: Seq<char>| #[trigger]
        table::holds(v.task_results, task_id) <==> v.applied_task_results.contains(task_id)
}

proof fn lemma_result_keeps_settled(v: TaskMarketProjectionView, task_id: Seq<char>)
    requires
        settled(v),
    ensures
        settled(with_result(v, task_id).0),
{
    let done = with_result(v, task_id).0;
    assert forall|id: Seq<char>| #[trigger]
        table::holds(done.task_results, id) <==> done.applied_task_results.contains(id) by {
        if let Some(claim) = adopted_claim(v, task_id) {
            table::lemma_put_holds(v.task_results, task_id, claim.result, id);
            table::lemma_joined_contains(v.applied_task_results, task_id, id);
        }
        assert(table::holds(v.task_results, id) <==> v.applied_task_results.contains(id));
    }
}

proof fn lemma_decisions_keep_settled(v: TaskMarketProjectionView, task_id: Seq<char>)
    requires
        settled(v),
    ensures
        settled(with_decisions(v, task_id).0),
{
    if let Some(a) = order::first(
        order::listed(v.task_acceptances, acceptable(v, task_id), by_acceptance()),
    ) {
        let next = TaskMarketProjectionView {
            tasks: table::put(
                v.tasks,
                task_id,
                TaskView {
                    state: TaskState::InProgress,
                    assigned_to: Some(a.bidder),
                    ..table::at(v.tasks, task_id)
                },
            ),
            ..v
        };
        assert(settled(next));
        lemma_result_keeps_settled(next, task_id);
    }
}

/// Every operation of the board keeps results and adoptions in step.
#[verifier::spinoff_prover]
#[verifier::rlimit(40)]
pub proof fn lemma_board_stays_settled(
    v: TaskMarketProjectionView,
    task: TaskSpecView,
    offer: TaskOfferView,
    acceptance: TaskAcceptanceView,
    cancellation: TaskCancellationView,
    result: TaskResultView,
    timestamp: u64,
    attestation: ExecutionAttestationView,
    dispute: TaskDisputeView,
)
    requires
        settled(v),
    ensures
        settled(with_task(v, task).0),
        settled(with_offer(v, offer).0),
        settled(with_known_acceptance(v, acceptance).0),
        settled(with_known_cancellation(v, cancellation)),
        settled(with_claim(v, result, timestamp).0),
        settled(with_attestation(v, attestation)),
        settled(with_dispute(v, dispute).0),
        settled(empty_board()),
{
    let id = spec_id(task);
    let published = TaskMarketProjectionView {
        tasks: table::put_new(v.tasks, id, task_of(task)),
        ..v
    };
    assert(settled(published));
    lemma_decisions_keep_settled(published, id);
    lemma_result_keeps_settled(with_decisions(published, id).0, id);
    let offered = TaskMarketProjectionView {
        task_offers: table::put(
            v.task_offers,
            offer.task_id,
            order::sort_by_key(offers_on(v, offer.task_id).push(offer), by_price()),
        ),
        ..v
    };
    assert(settled(offered));
    lemma_decisions_keep_settled(offered, offer.task_id);
    let accepted = TaskMarketProjectionView {
        task_acceptances: table::put_new(
            v.task_acceptances,
            (acceptance.task_id, acceptance_key(acceptance)),
            acceptance,
        ),
        ..v
    };
    assert(settled(accepted));
    lemma_decisions_keep_settled(accepted, acceptance.task_id);
    let claimed = TaskMarketProjectionView {
        task_result_claims: table::put(
            v.task_result_claims,
            (result.task_id, claim_id(result)),
            TaskResultClaimView { result, timestamp },
        ),
        ..v
    };
    assert(settled(claimed));
    lemma_result_keeps_settled(claimed, result.task_id);
}

/// A task that has a result keeps it: looking for one changes nothing.
pub proof fn lemma_result_stands(v: TaskMarketProjectionView, task_id: Seq<char>)
    requires
        settled(v),
        table::holds(v.task_results, task_id),
    ensures
        with_result(v, task_id) == (v, Seq::<TaskMarketEffectView>::empty()),
{
}

/// A result is adopted once: looking again changes nothing.
pub proof fn lemma_adoption_is_final(v: TaskMarketProjectionView, task_id: Seq<char>)
    ensures
        ({
            let once = with_result(v, task_id).0;
            once != v ==> with_result(once, task_id) == (once, Seq::<TaskMarketEffectView>::empty())
        }),
{
    let joined = table::joined(v.applied_task_results, task_id);
    if !v.applied_task_results.contains(task_id) {
        assert(joined.last() == task_id);
    }
}

/// An agent that performs its own task gains no reputation from it.
pub proof fn lemma_self_transaction_has_no_interaction(v: TaskMarketProjectionView, task_id: Seq<char>)
    requires
        table::holds(v.tasks, task_id),
        table::at(v.tasks, task_id).assigned_to == Some(table::at(v.tasks, task_id).publisher),
    ensures
        forall|i: int|
            0 <= i < with_result(v, task_id).1.len() ==> !((#[trigger] with_result(
                v,
                task_id,
            ).1[i]) is Interaction),
{
    lemma_adopted(v, task_id);
}

/// A cancelled task stays cancelled, whatever is claimed of it.
pub proof fn lemma_cancellation_is_final(v: TaskMarketProjectionView, task_id: Seq<char>, result: TaskResultView, timestamp:
    u64)
    requires
        table::holds(v.tasks, task_id),
        table::at(v.tasks, task_id).state == TaskState::Cancelled,
        result.task_id == task_id,
    ensures
        with_result(v, task_id) == (v, Seq::<TaskMarketEffectView>::empty()),
        with_acceptance(v, task_id) == (v, Seq::<TaskMarketEffectView>::empty()),
        with_claim(v, result, timestamp).0.tasks == v.tasks,
        with_claim(v, result, timestamp).1.len() == 0,
{
    lemma_adopted(v, task_id);
    lemma_accepted(v, task_id);
    let known = TaskMarketProjectionView {
        task_result_claims: table::put(
            v.task_result_claims,
            (task_id, claim_id(result)),
            TaskResultClaimView { result, timestamp },
        ),
        ..v
    };
    lemma_adopted(known, task_id);
}

} // verus!
