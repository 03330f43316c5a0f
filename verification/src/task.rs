//! Tasks: the unit of work in the agent marketplace.
use crate::did::{DidError, DidErrorView};
use crate::identity::{self, IdentitySignatureError, IdentitySignatureErrorView, NodeIdentity};
use crate::outside;
use crate::table::Key;
use crate::text;
use crate::twin::{both, lemma_bytes_view, outcome, Twin};
use crate::types::{Cid, Did, ProcessOutput, ResourceUsage, ResourceUsageView, WorkspaceId};
use crate::wire::{
    self, nonempty_wire, push_some, text_wire, to_nonempty_wire, Encode, Fields, Wire, WireView,
};
use vstd::prelude::*;
use vstd::string::*;
use vstd::utf8::*;

verus! {

broadcast use lemma_bytes_view;

/// States a task can be in.
#[derive(Clone, Copy, Debug, PartialEq, Eq, Hash, Structural)]
pub enum TaskState {
    /// Published and awaiting bids.
    Published,
    /// A bid has been accepted; work is in progress.
    InProgress,
    /// Completed successfully.
    Completed,
    /// Failed.
    Failed,
    /// Cancelled.
    Cancelled,
}

impl DeepView for TaskState {
    type V = TaskState;

    open spec fn deep_view(&self) -> TaskState {
        *self
    }
}

impl Twin for TaskState {
    fn twin(&self) -> (r: Self) {
        *self
    }
}

impl Encode for TaskState {
    open spec fn wire(v: TaskState) -> WireView {
        WireView::Text(
            match v {
                TaskState::Published => "Published"@,
                TaskState::InProgress => "InProgress"@,
                TaskState::Completed => "Completed"@,
                TaskState::Failed => "Failed"@,
                TaskState::Cancelled => "Cancelled"@,
            },
        )
    }

    fn to_wire(&self) -> (r: Wire) {
        match self {
            TaskState::Published => text_wire("Published"),
            TaskState::InProgress => text_wire("InProgress"),
            TaskState::Completed => text_wire("Completed"),
            TaskState::Failed => text_wire("Failed"),
            TaskState::Cancelled => text_wire("Cancelled"),
        }
    }
}

/// A task published to the marketplace.
#[derive(Debug, PartialEq, Eq)]
pub struct Task {
    /// The unique task identifier.
    pub id: String,
    /// Who published the task.
    pub publisher: Did,
    pub description: String,
    /// The name of the capability it needs.
    pub required_capability: String,
    /// The program to execute.
    pub command: String,
    pub args: Vec<String>,
    /// Optional input data, in base64.
    pub input: Option<String>,
    /// The maximum budget, in credit.
    pub max_budget: u64,
    pub deadline: u64,
    pub state: TaskState,
    /// Who executes it, once a bid is accepted.
    pub assigned_to: Option<Did>,
    pub created_at: u64,
}

/// The mathematical form of [`Task`].
#[verifier::ext_equal]
pub struct TaskView {
    pub id: Seq<char>,
    pub publisher: Seq<char>,
    pub description: Seq<char>,
    pub required_capability: Seq<char>,
    pub command: Seq<char>,
    pub args: Seq<Seq<char>>,
    pub input: Option<Seq<char>>,
    pub max_budget: u64,
    pub deadline: u64,
    pub state: TaskState,
    pub assigned_to: Option<Seq<char>>,
    pub created_at: u64,
}

impl DeepView for Task {
    type V = TaskView;

    open spec fn deep_view(&self) -> TaskView {
        TaskView {
            id: self.id.deep_view(),
            publisher: self.publisher.deep_view(),
            description: self.description.deep_view(),
            required_capability: self.required_capability.deep_view(),
            command: self.command.deep_view(),
            args: self.args.deep_view(),
            input: self.input.deep_view(),
            max_budget: self.max_budget.deep_view(),
            deadline: self.deadline.deep_view(),
            state: self.state.deep_view(),
            assigned_to: self.assigned_to.deep_view(),
            created_at: self.created_at.deep_view(),
        }
    }
}

impl Twin for Task {
    fn twin(&self) -> (r: Self) {
        Task {
            id: self.id.twin(),
            publisher: self.publisher.twin(),
            description: self.description.twin(),
            required_capability: self.required_capability.twin(),
            command: self.command.twin(),
            args: self.args.twin(),
            input: self.input.twin(),
            max_budget: self.max_budget.twin(),
            deadline: self.deadline.twin(),
            state: self.state.twin(),
            assigned_to: self.assigned_to.twin(),
            created_at: self.created_at.twin(),
        }
    }
}

impl Clone for Task {
    fn clone(&self) -> (r: Self)
        ensures
            r.deep_view() == self.deep_view(),
    {
        self.twin()
    }
}

impl Encode for Task {
    open spec fn wire(v: TaskView) -> WireView {
        WireView::Record(
            Seq::<(Seq<char>, WireView)>::empty()
            .push(("id"@, String::wire(v.id)))
            .push(("publisher"@, Did::wire(v.publisher)))
            .push(("description"@, String::wire(v.description)))
            .push(("required_capability"@, String::wire(v.required_capability)))
            .push(("command"@, String::wire(v.command)))
            .push(("args"@, <Vec<String> as Encode>::wire(v.args)))
            .push(("input"@, <Option<String> as Encode>::wire(v.input)))
            .push(("max_budget"@, u64::wire(v.max_budget)))
            .push(("deadline"@, u64::wire(v.deadline)))
            .push(("state"@, TaskState::wire(v.state)))
            .push(("assigned_to"@, <Option<Did> as Encode>::wire(v.assigned_to)))
            .push(("created_at"@, u64::wire(v.created_at))),
        )
    }

    fn to_wire(&self) -> (r: Wire) {
        Fields::new()
            .with("id", self.id.to_wire())
            .with("publisher", self.publisher.to_wire())
            .with("description", self.description.to_wire())
            .with("required_capability", self.required_capability.to_wire())
            .with("command", self.command.to_wire())
            .with("args", self.args.to_wire())
            .with("input", self.input.to_wire())
            .with("max_budget", self.max_budget.to_wire())
            .with("deadline", self.deadline.to_wire())
            .with("state", self.state.to_wire())
            .with("assigned_to", self.assigned_to.to_wire())
            .with("created_at", self.created_at.to_wire())
            .done()
    }
}

/// An offer to execute a task for a price.
#[derive(Debug, PartialEq, Eq)]
pub struct TaskOffer {
    pub task_id: String,
    pub bidder: Did,
    pub price: u64,
    pub estimated_time_secs: u64,
    pub rationale: String,
}

/// The mathematical form of [`TaskOffer`].
#[verifier::ext_equal]
pub struct TaskOfferView {
    pub task_id: Seq<char>,
    pub bidder: Seq<char>,
    pub price: u64,
    pub estimated_time_secs: u64,
    pub rationale: Seq<char>,
}

impl DeepView for TaskOffer {
    type V = TaskOfferView;

    open spec fn deep_view(&self) -> TaskOfferView {
        TaskOfferView {
            task_id: self.task_id.deep_view(),
            bidder: self.bidder.deep_view(),
            price: self.price.deep_view(),
            estimated_time_secs: self.estimated_time_secs.deep_view(),
            rationale: self.rationale.deep_view(),
        }
    }
}

impl Twin for TaskOffer {
    fn twin(&self) -> (r: Self) {
        TaskOffer {
            task_id: self.task_id.twin(),
            bidder: self.bidder.twin(),
            price: self.price.twin(),
            estimated_time_secs: self.estimated_time_secs.twin(),
            rationale: self.rationale.twin(),
        }
    }
}

impl Clone for TaskOffer {
    fn clone(&self) -> (r: Self)
        ensures
            r.deep_view() == self.deep_view(),
    {
        self.twin()
    }
}

impl Encode for TaskOffer {
    open spec fn wire(v: TaskOfferView) -> WireView {
        WireView::Record(
            Seq::<(Seq<char>, WireView)>::empty()
            .push(("task_id"@, String::wire(v.task_id)))
            .push(("bidder"@, Did::wire(v.bidder)))
            .push(("price"@, u64::wire(v.price)))
            .push(("estimated_time_secs"@, u64::wire(v.estimated_time_secs)))
            .push(("rationale"@, String::wire(v.rationale))),
        )
    }

    fn to_wire(&self) -> (r: Wire) {
        Fields::new()
            .with("task_id", self.task_id.to_wire())
            .with("bidder", self.bidder.to_wire())
            .with("price", self.price.to_wire())
            .with("estimated_time_secs", self.estimated_time_secs.to_wire())
            .with("rationale", self.rationale.to_wire())
            .done()
    }
}

/// An offer seen as a bid.
pub type TaskBid = TaskOffer;

/// A publisher's acceptance of an offer.
#[derive(Debug, PartialEq, Eq)]
pub struct TaskAcceptance {
    pub task_id: String,
    pub publisher: Did,
    pub bidder: Did,
    pub price: u64,
    pub accepted_at: u64,
}

/// The mathematical form of [`TaskAcceptance`].
#[verifier::ext_equal]
pub struct TaskAcceptanceView {
    pub task_id: Seq<char>,
    pub publisher: Seq<char>,
    pub bidder: Seq<char>,
    pub price: u64,
    pub accepted_at: u64,
}

impl DeepView for TaskAcceptance {
    type V = TaskAcceptanceView;

    open spec fn deep_view(&self) -> TaskAcceptanceView {
        TaskAcceptanceView {
            task_id: self.task_id.deep_view(),
            publisher: self.publisher.deep_view(),
            bidder: self.bidder.deep_view(),
            price: self.price.deep_view(),
            accepted_at: self.accepted_at.deep_view(),
        }
    }
}

impl Twin for TaskAcceptance {
    fn twin(&self) -> (r: Self) {
        TaskAcceptance {
            task_id: self.task_id.twin(),
            publisher: self.publisher.twin(),
            bidder: self.bidder.twin(),
            price: self.price.twin(),
            accepted_at: self.accepted_at.twin(),
        }
    }
}

impl Clone for TaskAcceptance {
    fn clone(&self) -> (r: Self)
        ensures
            r.deep_view() == self.deep_view(),
    {
        self.twin()
    }
}

impl Encode for TaskAcceptance {
    open spec fn wire(v: TaskAcceptanceView) -> WireView {
        WireView::Record(
            Seq::<(Seq<char>, WireView)>::empty()
            .push(("task_id"@, String::wire(v.task_id)))
            .push(("publisher"@, Did::wire(v.publisher)))
            .push(("bidder"@, Did::wire(v.bidder)))
            .push(("price"@, u64::wire(v.price)))
            .push(("accepted_at"@, u64::wire(v.accepted_at))),
        )
    }

    fn to_wire(&self) -> (r: Wire) {
        Fields::new()
            .with("task_id", self.task_id.to_wire())
            .with("publisher", self.publisher.to_wire())
            .with("bidder", self.bidder.to_wire())
            .with("price", self.price.to_wire())
            .with("accepted_at", self.accepted_at.to_wire())
            .done()
    }
}

/// A publisher's cancellation of a task.
#[derive(Debug, PartialEq, Eq)]
pub struct TaskCancellation {
    pub task_id: String,
    pub publisher: Did,
    pub reason: String,
    pub cancelled_at: u64,
}

/// The mathematical form of [`TaskCancellation`].
#[verifier::ext_equal]
pub struct TaskCancellationView {
    pub task_id: Seq<char>,
    pub publisher: Seq<char>,
    pub reason: Seq<char>,
    pub cancelled_at: u64,
}

impl DeepView for TaskCancellation {
    type V = TaskCancellationView;

    open spec fn deep_view(&self) -> TaskCancellationView {
        TaskCancellationView {
            task_id: self.task_id.deep_view(),
            publisher: self.publisher.deep_view(),
            reason: self.reason.deep_view(),
            cancelled_at: self.cancelled_at.deep_view(),
        }
    }
}

impl Twin for TaskCancellation {
    fn twin(&self) -> (r: Self) {
        TaskCancellation {
            task_id: self.task_id.twin(),
            publisher: self.publisher.twin(),
            reason: self.reason.twin(),
            cancelled_at: self.cancelled_at.twin(),
        }
    }
}

impl Clone for TaskCancellation {
    fn clone(&self) -> (r: Self)
        ensures
            r.deep_view() == self.deep_view(),
    {
        self.twin()
    }
}

impl Encode for TaskCancellation {
    open spec fn wire(v: TaskCancellationView) -> WireView {
        WireView::Record(
            Seq::<(Seq<char>, WireView)>::empty()
            .push(("task_id"@, String::wire(v.task_id)))
            .push(("publisher"@, Did::wire(v.publisher)))
            .push(("reason"@, String::wire(v.reason)))
            .push(("cancelled_at"@, u64::wire(v.cancelled_at))),
        )
    }

    fn to_wire(&self) -> (r: Wire) {
        Fields::new()
            .with("task_id", self.task_id.to_wire())
            .with("publisher", self.publisher.to_wire())
            .with("reason", self.reason.to_wire())
            .with("cancelled_at", self.cancelled_at.to_wire())
            .done()
    }
}

/// Signed evidence that an agent executed a task.
#[derive(Debug, PartialEq, Eq)]
pub struct ExecutionReceipt {
    pub task_id: String,
    pub executor: Did,
    pub workspace: Option<WorkspaceId>,
    pub command: String,
    pub args: Vec<String>,
    pub exit_code: i32,
    pub stdout_cid: Cid,
    pub stderr_cid: Cid,
    pub output_root: Option<Cid>,
    pub resources: ResourceUsage,
    pub started_at: u64,
    pub finished_at: u64,
    pub signature: Option<Vec<u8>>,
}

/// The mathematical form of [`ExecutionReceipt`].
#[verifier::ext_equal]
pub struct ExecutionReceiptView {
    pub task_id: Seq<char>,
    pub executor: Seq<char>,
    pub workspace: Option<Seq<u8>>,
    pub command: Seq<char>,
    pub args: Seq<Seq<char>>,
    pub exit_code: i32,
    pub stdout_cid: Seq<u8>,
    pub stderr_cid: Seq<u8>,
    pub output_root: Option<Seq<u8>>,
    pub resources: ResourceUsageView,
    pub started_at: u64,
    pub finished_at: u64,
    pub signature: Option<Seq<u8>>,
}

impl DeepView for ExecutionReceipt {
    type V = ExecutionReceiptView;

    open spec fn deep_view(&self) -> ExecutionReceiptView {
        ExecutionReceiptView {
            task_id: self.task_id.deep_view(),
            executor: self.executor.deep_view(),
            workspace: self.workspace.deep_view(),
            command: self.command.deep_view(),
            args: self.args.deep_view(),
            exit_code: self.exit_code.deep_view(),
            stdout_cid: self.stdout_cid.deep_view(),
            stderr_cid: self.stderr_cid.deep_view(),
            output_root: self.output_root.deep_view(),
            resources: self.resources.deep_view(),
            started_at: self.started_at.deep_view(),
            finished_at: self.finished_at.deep_view(),
            signature: self.signature.deep_view(),
        }
    }
}

impl Twin for ExecutionReceipt {
    fn twin(&self) -> (r: Self) {
        ExecutionReceipt {
            task_id: self.task_id.twin(),
            executor: self.executor.twin(),
            workspace: self.workspace.twin(),
            command: self.command.twin(),
            args: self.args.twin(),
            exit_code: self.exit_code.twin(),
            stdout_cid: self.stdout_cid.twin(),
            stderr_cid: self.stderr_cid.twin(),
            output_root: self.output_root.twin(),
            resources: self.resources.twin(),
            started_at: self.started_at.twin(),
            finished_at: self.finished_at.twin(),
            signature: self.signature.twin(),
        }
    }
}

impl Clone for ExecutionReceipt {
    fn clone(&self) -> (r: Self)
        ensures
            r.deep_view() == self.deep_view(),
    {
        self.twin()
    }
}

impl Encode for ExecutionReceipt {
    open spec fn wire(v: ExecutionReceiptView) -> WireView {
        WireView::Record(
            Seq::<(Seq<char>, WireView)>::empty()
            .push(("task_id"@, String::wire(v.task_id)))
            .push(("executor"@, Did::wire(v.executor)))
            .push(("workspace"@, <Option<WorkspaceId> as Encode>::wire(v.workspace)))
            .push(("command"@, String::wire(v.command)))
            .push(("args"@, <Vec<String> as Encode>::wire(v.args)))
            .push(("exit_code"@, i32::wire(v.exit_code)))
            .push(("stdout_cid"@, Cid::wire(v.stdout_cid)))
            .push(("stderr_cid"@, Cid::wire(v.stderr_cid)))
            .push(("output_root"@, <Option<Cid> as Encode>::wire(v.output_root)))
            .push(("resources"@, ResourceUsage::wire(v.resources)))
            .push(("started_at"@, u64::wire(v.started_at)))
            .push(("finished_at"@, u64::wire(v.finished_at)))
            .push(("signature"@, <Option<Vec<u8>> as Encode>::wire(v.signature))),
        )
    }

    fn to_wire(&self) -> (r: Wire) {
        Fields::new()
            .with("task_id", self.task_id.to_wire())
            .with("executor", self.executor.to_wire())
            .with("workspace", self.workspace.to_wire())
            .with("command", self.command.to_wire())
            .with("args", self.args.to_wire())
            .with("exit_code", self.exit_code.to_wire())
            .with("stdout_cid", self.stdout_cid.to_wire())
            .with("stderr_cid", self.stderr_cid.to_wire())
            .with("output_root", self.output_root.to_wire())
            .with("resources", self.resources.to_wire())
            .with("started_at", self.started_at.to_wire())
            .with("finished_at", self.finished_at.to_wire())
            .with("signature", self.signature.to_wire())
            .done()
    }
}

/// Signed evidence that another agent observed the same execution.
#[derive(Debug, PartialEq, Eq)]
pub struct ExecutionAttestation {
    pub task_id: String,
    pub executor: Did,
    pub attestor: Did,
    pub receipt_signature_hex: String,
    pub exit_code: i32,
    pub stdout_cid: Cid,
    pub stderr_cid: Cid,
    pub output_root: Option<Cid>,
    pub observed_at: u64,
    pub signature: Option<Vec<u8>>,
}

/// The mathematical form of [`ExecutionAttestation`].
#[verifier::ext_equal]
pub struct ExecutionAttestationView {
    pub task_id: Seq<char>,
    pub executor: Seq<char>,
    pub attestor: Seq<char>,
    pub receipt_signature_hex: Seq<char>,
    pub exit_code: i32,
    pub stdout_cid: Seq<u8>,
    pub stderr_cid: Seq<u8>,
    pub output_root: Option<Seq<u8>>,
    pub observed_at: u64,
    pub signature: Option<Seq<u8>>,
}

impl DeepView for ExecutionAttestation {
    type V = ExecutionAttestationView;

    open spec fn deep_view(&self) -> ExecutionAttestationView {
        ExecutionAttestationView {
            task_id: self.task_id.deep_view(),
            executor: self.executor.deep_view(),
            attestor: self.attestor.deep_view(),
            receipt_signature_hex: self.receipt_signature_hex.deep_view(),
            exit_code: self.exit_code.deep_view(),
            stdout_cid: self.stdout_cid.deep_view(),
            stderr_cid: self.stderr_cid.deep_view(),
            output_root: self.output_root.deep_view(),
            observed_at: self.observed_at.deep_view(),
            signature: self.signature.deep_view(),
        }
    }
}

impl Twin for ExecutionAttestation {
    fn twin(&self) -> (r: Self) {
        ExecutionAttestation {
            task_id: self.task_id.twin(),
            executor: self.executor.twin(),
            attestor: self.attestor.twin(),
            receipt_signature_hex: self.receipt_signature_hex.twin(),
            exit_code: self.exit_code.twin(),
            stdout_cid: self.stdout_cid.twin(),
            stderr_cid: self.stderr_cid.twin(),
            output_root: self.output_root.twin(),
            observed_at: self.observed_at.twin(),
            signature: self.signature.twin(),
        }
    }
}

impl Clone for ExecutionAttestation {
    fn clone(&self) -> (r: Self)
        ensures
            r.deep_view() == self.deep_view(),
    {
        self.twin()
    }
}

impl Encode for ExecutionAttestation {
    open spec fn wire(v: ExecutionAttestationView) -> WireView {
        WireView::Record(
            Seq::<(Seq<char>, WireView)>::empty()
            .push(("task_id"@, String::wire(v.task_id)))
            .push(("executor"@, Did::wire(v.executor)))
            .push(("attestor"@, Did::wire(v.attestor)))
            .push(("receipt_signature_hex"@, String::wire(v.receipt_signature_hex)))
            .push(("exit_code"@, i32::wire(v.exit_code)))
            .push(("stdout_cid"@, Cid::wire(v.stdout_cid)))
            .push(("stderr_cid"@, Cid::wire(v.stderr_cid)))
            .push(("output_root"@, <Option<Cid> as Encode>::wire(v.output_root)))
            .push(("observed_at"@, u64::wire(v.observed_at)))
            .push(("signature"@, <Option<Vec<u8>> as Encode>::wire(v.signature))),
        )
    }

    fn to_wire(&self) -> (r: Wire) {
        Fields::new()
            .with("task_id", self.task_id.to_wire())
            .with("executor", self.executor.to_wire())
            .with("attestor", self.attestor.to_wire())
            .with("receipt_signature_hex", self.receipt_signature_hex.to_wire())
            .with("exit_code", self.exit_code.to_wire())
            .with("stdout_cid", self.stdout_cid.to_wire())
            .with("stderr_cid", self.stderr_cid.to_wire())
            .with("output_root", self.output_root.to_wire())
            .with("observed_at", self.observed_at.to_wire())
            .with("signature", self.signature.to_wire())
            .done()
    }
}

/// The result of executing a task.
#[derive(Debug, PartialEq, Eq)]
pub struct TaskResult {
    pub task_id: String,
    pub executor: Did,
    pub success: bool,
    pub exit_code: i32,
    pub stdout: String,
    pub stderr: String,
    /// The actual cost, in credit.
    pub actual_cost: u64,
    pub error: Option<String>,
    /// Signed proof of the execution behind the result.
    pub receipt: Option<Box<ExecutionReceipt>>,
    /// What others observed of the execution.
    pub attestations: Vec<ExecutionAttestation>,
}

/// The mathematical form of [`TaskResult`].
#[verifier::ext_equal]
pub struct TaskResultView {
    pub task_id: Seq<char>,
    pub executor: Seq<char>,
    pub success: bool,
    pub exit_code: i32,
    pub stdout: Seq<char>,
    pub stderr: Seq<char>,
    pub actual_cost: u64,
    pub error: Option<Seq<char>>,
    pub receipt: Option<ExecutionReceiptView>,
    pub attestations: Seq<ExecutionAttestationView>,
}

impl DeepView for TaskResult {
    type V = TaskResultView;

    open spec fn deep_view(&self) -> TaskResultView {
        TaskResultView {
            task_id: self.task_id.deep_view(),
            executor: self.executor.deep_view(),
            success: self.success.deep_view(),
            exit_code: self.exit_code.deep_view(),
            stdout: self.stdout.deep_view(),
            stderr: self.stderr.deep_view(),
            actual_cost: self.actual_cost.deep_view(),
            error: self.error.deep_view(),
            receipt: self.receipt.deep_view(),
            attestations: self.attestations.deep_view(),
        }
    }
}

impl Twin for TaskResult {
    fn twin(&self) -> (r: Self) {
        TaskResult {
            task_id: self.task_id.twin(),
            executor: self.executor.twin(),
            success: self.success.twin(),
            exit_code: self.exit_code.twin(),
            stdout: self.stdout.twin(),
            stderr: self.stderr.twin(),
            actual_cost: self.actual_cost.twin(),
            error: self.error.twin(),
            receipt: self.receipt.twin(),
            attestations: self.attestations.twin(),
        }
    }
}

impl Clone for TaskResult {
    fn clone(&self) -> (r: Self)
        ensures
            r.deep_view() == self.deep_view(),
    {
        self.twin()
    }
}

impl Encode for TaskResult {
    open spec fn wire(v: TaskResultView) -> WireView {
        WireView::Record(
            push_some(
                Seq::<(Seq<char>, WireView)>::empty()
            .push(("task_id"@, String::wire(v.task_id)))
            .push(("executor"@, Did::wire(v.executor)))
            .push(("success"@, bool::wire(v.success)))
            .push(("exit_code"@, i32::wire(v.exit_code)))
            .push(("stdout"@, String::wire(v.stdout)))
            .push(("stderr"@, String::wire(v.stderr)))
            .push(("actual_cost"@, u64::wire(v.actual_cost)))
            .push(("error"@, <Option<String> as Encode>::wire(v.error)))
            .push(("receipt"@, <Option<Box<ExecutionReceipt>> as Encode>::wire(v.receipt))),
                "attestations"@,
                nonempty_wire::<ExecutionAttestation>(v.attestations),
            ),
        )
    }

    fn to_wire(&self) -> (r: Wire) {
        Fields::new()
            .with("task_id", self.task_id.to_wire())
            .with("executor", self.executor.to_wire())
            .with("success", self.success.to_wire())
            .with("exit_code", self.exit_code.to_wire())
            .with("stdout", self.stdout.to_wire())
            .with("stderr", self.stderr.to_wire())
            .with("actual_cost", self.actual_cost.to_wire())
            .with("error", self.error.to_wire())
            .with("receipt", self.receipt.to_wire())
            .with_some("attestations", to_nonempty_wire(&self.attestations))
            .done()
    }
}

/// What a publisher says of a task.
#[derive(Debug, PartialEq, Eq)]
pub struct TaskSpec {
    /// The stable identifier; empty in specs from before identifiers.
    pub id: String,
    pub publisher: Did,
    pub description: String,
    pub required_capability: String,
    pub command: String,
    pub args: Vec<String>,
    pub max_budget: u64,
    pub deadline: u64,
    pub created_at: u64,
}

/// The mathematical form of [`TaskSpec`].
#[verifier::ext_equal]
pub struct TaskSpecView {
    pub id: Seq<char>,
    pub publisher: Seq<char>,
    pub description: Seq<char>,
    pub required_capability: Seq<char>,
    pub command: Seq<char>,
    pub args: Seq<Seq<char>>,
    pub max_budget: u64,
    pub deadline: u64,
    pub created_at: u64,
}

impl DeepView for TaskSpec {
    type V = TaskSpecView;

    open spec fn deep_view(&self) -> TaskSpecView {
        TaskSpecView {
            id: self.id.deep_view(),
            publisher: self.publisher.deep_view(),
            description: self.description.deep_view(),
            required_capability: self.required_capability.deep_view(),
            command: self.command.deep_view(),
            args: self.args.deep_view(),
            max_budget: self.max_budget.deep_view(),
            deadline: self.deadline.deep_view(),
            created_at: self.created_at.deep_view(),
        }
    }
}

impl Twin for TaskSpec {
    fn twin(&self) -> (r: Self) {
        TaskSpec {
            id: self.id.twin(),
            publisher: self.publisher.twin(),
            description: self.description.twin(),
            required_capability: self.required_capability.twin(),
            command: self.command.twin(),
            args: self.args.twin(),
            max_budget: self.max_budget.twin(),
            deadline: self.deadline.twin(),
            created_at: self.created_at.twin(),
        }
    }
}

impl Clone for TaskSpec {
    fn clone(&self) -> (r: Self)
        ensures
            r.deep_view() == self.deep_view(),
    {
        self.twin()
    }
}

impl Encode for TaskSpec {
    open spec fn wire(v: TaskSpecView) -> WireView {
        WireView::Record(
            Seq::<(Seq<char>, WireView)>::empty()
            .push(("id"@, String::wire(v.id)))
            .push(("publisher"@, Did::wire(v.publisher)))
            .push(("description"@, String::wire(v.description)))
            .push(("required_capability"@, String::wire(v.required_capability)))
            .push(("command"@, String::wire(v.command)))
            .push(("args"@, <Vec<String> as Encode>::wire(v.args)))
            .push(("max_budget"@, u64::wire(v.max_budget)))
            .push(("deadline"@, u64::wire(v.deadline)))
            .push(("created_at"@, u64::wire(v.created_at))),
        )
    }

    fn to_wire(&self) -> (r: Wire) {
        Fields::new()
            .with("id", self.id.to_wire())
            .with("publisher", self.publisher.to_wire())
            .with("description", self.description.to_wire())
            .with("required_capability", self.required_capability.to_wire())
            .with("command", self.command.to_wire())
            .with("args", self.args.to_wire())
            .with("max_budget", self.max_budget.to_wire())
            .with("deadline", self.deadline.to_wire())
            .with("created_at", self.created_at.to_wire())
            .done()
    }
}

/// Why a receipt or attestation is refused.
#[derive(Debug, PartialEq, Eq)]
pub enum ExecutionReceiptError {
    ExecutorSignerMismatch { executor: Did, signer: Did },
    MissingSignature,
    InvalidExecutorDid(DidError),
    InvalidVerifyingKey,
    InvalidSignatureBytes,
    SignatureVerificationFailed,
    /// The receipt is not about the result.
    ReceiptMismatch,
    /// The receipt is not about the output.
    OutputCidMismatch,
    /// A success must exit with zero.
    SuccessExitCodeMismatch,
}

/// The mathematical form of [`ExecutionReceiptError`].
pub enum ExecutionReceiptErrorView {
    ExecutorSignerMismatch { executor: Seq<char>, signer: Seq<char> },
    MissingSignature,
    InvalidExecutorDid(DidErrorView),
    InvalidVerifyingKey,
    InvalidSignatureBytes,
    SignatureVerificationFailed,
    ReceiptMismatch,
    OutputCidMismatch,
    SuccessExitCodeMismatch,
}

impl DeepView for ExecutionReceiptError {
    type V = ExecutionReceiptErrorView;

    open spec fn deep_view(&self) -> ExecutionReceiptErrorView {
        match self {
            ExecutionReceiptError::ExecutorSignerMismatch { executor, signer } => ExecutionReceiptErrorView::ExecutorSignerMismatch {
                executor: executor.deep_view(),
                signer: signer.deep_view(),
            },
            ExecutionReceiptError::MissingSignature => ExecutionReceiptErrorView::MissingSignature,
            ExecutionReceiptError::InvalidExecutorDid(a0) => ExecutionReceiptErrorView::InvalidExecutorDid(a0.deep_view()),
            ExecutionReceiptError::InvalidVerifyingKey => ExecutionReceiptErrorView::InvalidVerifyingKey,
            ExecutionReceiptError::InvalidSignatureBytes => ExecutionReceiptErrorView::InvalidSignatureBytes,
            ExecutionReceiptError::SignatureVerificationFailed => ExecutionReceiptErrorView::SignatureVerificationFailed,
            ExecutionReceiptError::ReceiptMismatch => ExecutionReceiptErrorView::ReceiptMismatch,
            ExecutionReceiptError::OutputCidMismatch => ExecutionReceiptErrorView::OutputCidMismatch,
            ExecutionReceiptError::SuccessExitCodeMismatch => ExecutionReceiptErrorView::SuccessExitCodeMismatch,
        }
    }
}

impl Twin for ExecutionReceiptError {
    fn twin(&self) -> (r: Self) {
        match self {
            ExecutionReceiptError::ExecutorSignerMismatch { executor, signer } => ExecutionReceiptError::ExecutorSignerMismatch {
                executor: executor.twin(),
                signer: signer.twin(),
            },
            ExecutionReceiptError::MissingSignature => ExecutionReceiptError::MissingSignature,
            ExecutionReceiptError::InvalidExecutorDid(a0) => ExecutionReceiptError::InvalidExecutorDid(a0.twin()),
            ExecutionReceiptError::InvalidVerifyingKey => ExecutionReceiptError::InvalidVerifyingKey,
            ExecutionReceiptError::InvalidSignatureBytes => ExecutionReceiptError::InvalidSignatureBytes,
            ExecutionReceiptError::SignatureVerificationFailed => ExecutionReceiptError::SignatureVerificationFailed,
            ExecutionReceiptError::ReceiptMismatch => ExecutionReceiptError::ReceiptMismatch,
            ExecutionReceiptError::OutputCidMismatch => ExecutionReceiptError::OutputCidMismatch,
            ExecutionReceiptError::SuccessExitCodeMismatch => ExecutionReceiptError::SuccessExitCodeMismatch,
        }
    }
}

impl Clone for ExecutionReceiptError {
    fn clone(&self) -> (r: Self)
        ensures
            r.deep_view() == self.deep_view(),
    {
        self.twin()
    }
}

/// What the executor of a receipt signs.
pub open spec fn receipt_payload(v: ExecutionReceiptView) -> Seq<u8> {
    wire::json(
        WireView::Record(
            Seq::<(Seq<char>, WireView)>::empty()
            .push(("task_id"@, String::wire(v.task_id)))
            .push(("executor"@, Did::wire(v.executor)))
            .push(("workspace"@, <Option<WorkspaceId> as Encode>::wire(v.workspace)))
            .push(("command"@, String::wire(v.command)))
            .push(("args"@, <Vec<String> as Encode>::wire(v.args)))
            .push(("exit_code"@, i32::wire(v.exit_code)))
            .push(("stdout_cid"@, Cid::wire(v.stdout_cid)))
            .push(("stderr_cid"@, Cid::wire(v.stderr_cid)))
            .push(("output_root"@, <Option<Cid> as Encode>::wire(v.output_root)))
            .push(("resources"@, ResourceUsage::wire(v.resources)))
            .push(("started_at"@, u64::wire(v.started_at)))
            .push(("finished_at"@, u64::wire(v.finished_at))),
        ),
    )
}

/// What an attestor signs.
pub open spec fn attestation_payload(v: ExecutionAttestationView) -> Seq<u8> {
    wire::json(
        WireView::Record(
            Seq::<(Seq<char>, WireView)>::empty()
            .push(("task_id"@, String::wire(v.task_id)))
            .push(("executor"@, Did::wire(v.executor)))
            .push(("attestor"@, Did::wire(v.attestor)))
            .push(("receipt_signature_hex"@, String::wire(v.receipt_signature_hex)))
            .push(("exit_code"@, i32::wire(v.exit_code)))
            .push(("stdout_cid"@, Cid::wire(v.stdout_cid)))
            .push(("stderr_cid"@, Cid::wire(v.stderr_cid)))
            .push(("output_root"@, <Option<Cid> as Encode>::wire(v.output_root)))
            .push(("observed_at"@, u64::wire(v.observed_at))),
        ),
    )
}

/// A signature check as an error of receipts.
pub open spec fn signature_verdict(r: Result<(), IdentitySignatureErrorView>) -> Result<
    (),
    ExecutionReceiptErrorView,
> {
    match r {
        Ok(_) => Ok(()),
        Err(IdentitySignatureErrorView::InvalidDid(e)) => Err(
            ExecutionReceiptErrorView::InvalidExecutorDid(e),
        ),
        Err(IdentitySignatureErrorView::InvalidVerifyingKey) => Err(
            ExecutionReceiptErrorView::InvalidVerifyingKey,
        ),
        Err(IdentitySignatureErrorView::InvalidSignatureBytes) => Err(
            ExecutionReceiptErrorView::InvalidSignatureBytes,
        ),
        Err(IdentitySignatureErrorView::VerificationFailed) => Err(
            ExecutionReceiptErrorView::SignatureVerificationFailed,
        ),
    }
}

/// Whether a signer signed a payload.
pub open spec fn signed_by(
    signer: Seq<char>,
    payload: Seq<u8>,
    signature: Option<Seq<u8>>,
) -> Result<(), ExecutionReceiptErrorView> {
    match signature {
        None => Err(ExecutionReceiptErrorView::MissingSignature),
        Some(s) => signature_verdict(identity::did_accepts(signer, payload, s)),
    }
}

/// Whether the executor signed the receipt.
pub open spec fn receipt_signed(v: ExecutionReceiptView) -> Result<(), ExecutionReceiptErrorView> {
    signed_by(v.executor, receipt_payload(v), v.signature)
}

/// Whether the attestor signed the attestation.
pub open spec fn attestation_signed(v: ExecutionAttestationView) -> Result<
    (),
    ExecutionReceiptErrorView,
> {
    signed_by(v.attestor, attestation_payload(v), v.signature)
}

fn check_signed(signer: &Did, payload: &[u8], signature: &Option<Vec<u8>>) -> (r: Result<
    (),
    ExecutionReceiptError,
>)
    ensures
        outcome(r) == signed_by(signer.deep_view(), payload@, signature.deep_view()),
{
    match signature {
        None => Err(ExecutionReceiptError::MissingSignature),
        Some(s) => match identity::verify_did_signature(signer, payload, s.as_slice()) {
            Ok(_) => Ok(()),
            Err(IdentitySignatureError::InvalidDid(e)) => Err(
                ExecutionReceiptError::InvalidExecutorDid(e),
            ),
            Err(IdentitySignatureError::InvalidVerifyingKey) => Err(
                ExecutionReceiptError::InvalidVerifyingKey,
            ),
            Err(IdentitySignatureError::InvalidSignatureBytes) => Err(
                ExecutionReceiptError::InvalidSignatureBytes,
            ),
            Err(IdentitySignatureError::VerificationFailed) => Err(
                ExecutionReceiptError::SignatureVerificationFailed,
            ),
        },
    }
}

impl ExecutionReceipt {
    /// An unsigned receipt of a process.
    pub fn from_process_output(
        task_id: &str,
        executor: Did,
        workspace: Option<WorkspaceId>,
        command: &str,
        args: Vec<String>,
        output: &ProcessOutput,
        output_root: Option<Cid>,
        started_at: u64,
        finished_at: u64,
    ) -> (r: Self)
        ensures
            r.deep_view() == (ExecutionReceiptView {
                task_id: task_id@,
                executor: executor.deep_view(),
                workspace: workspace.deep_view(),
                command: command@,
                args: args.deep_view(),
                exit_code: output.deep_view().exit_code,
                stdout_cid: outside::sha256_of(output.deep_view().stdout),
                stderr_cid: outside::sha256_of(output.deep_view().stderr),
                output_root: output_root.deep_view(),
                resources: output.deep_view().resources,
                started_at,
                finished_at,
                signature: None,
            }),
    {
        ExecutionReceipt {
            task_id: text::owned(task_id),
            executor,
            workspace,
            command: text::owned(command),
            args,
            exit_code: output.exit_code,
            stdout_cid: Cid::hash_of(output.stdout.as_slice()),
            stderr_cid: Cid::hash_of(output.stderr.as_slice()),
            output_root,
            resources: output.resources.twin(),
            started_at,
            finished_at,
            signature: None,
        }
    }

    /// The bytes that the executor signs: every field but the signature.
    pub fn signing_payload(&self) -> (r: Vec<u8>)
        ensures
            r@ == receipt_payload(self.deep_view()),
    {
        let document = Fields::new()
            .with("task_id", self.task_id.to_wire())
            .with("executor", self.executor.to_wire())
            .with("workspace", self.workspace.to_wire())
            .with("command", self.command.to_wire())
            .with("args", self.args.to_wire())
            .with("exit_code", self.exit_code.to_wire())
            .with("stdout_cid", self.stdout_cid.to_wire())
            .with("stderr_cid", self.stderr_cid.to_wire())
            .with("output_root", self.output_root.to_wire())
            .with("resources", self.resources.to_wire())
            .with("started_at", self.started_at.to_wire())
            .with("finished_at", self.finished_at.to_wire())
            .done();
        wire::json_bytes(&document)
    }

    /// Signs the receipt; only its executor may. A signed receipt verifies.
    pub fn sign(self, identity: &NodeIdentity) -> (r: Result<Self, ExecutionReceiptError>)
        ensures
            outcome(r) == (if self.deep_view().executor == identity.name() {
                Ok(
                    ExecutionReceiptView {
                        signature: Some(
                            outside::signature_of(
                                identity.seed(),
                                receipt_payload(self.deep_view()),
                            ),
                        ),
                        ..self.deep_view()
                    },
                )
            } else {
                Err(
                    ExecutionReceiptErrorView::ExecutorSignerMismatch {
                        executor: self.deep_view().executor,
                        signer: identity.name(),
                    },
                )
            }),
            r matches Ok(receipt) ==> receipt_signed(receipt.deep_view()) is Ok,
    {
        let mut r = self;
        if !r.executor.same(identity.did()) {
            return Err(
                ExecutionReceiptError::ExecutorSignerMismatch {
                    executor: r.executor,
                    signer: identity.did().twin(),
                },
            );
        }
        let payload = r.signing_payload();
        r.signature = Some(identity.sign(payload.as_slice()));
        Ok(r)
    }

    /// Checks the executor's signature.
    pub fn verify_signature(&self) -> (r: Result<(), ExecutionReceiptError>)
        ensures
            outcome(r) == receipt_signed(self.deep_view()),
    {
        if self.signature.is_none() {
            return Err(ExecutionReceiptError::MissingSignature);
        }
        let payload = self.signing_payload();
        check_signed(&self.executor, payload.as_slice(), &self.signature)
    }
}

/// The signature of a receipt in hexadecimal; empty where there is none.
pub open spec fn receipt_mark(receipt: ExecutionReceiptView) -> Seq<char> {
    match receipt.signature {
        Some(s) => outside::hex_text(s),
        None => Seq::empty(),
    }
}

/// Whether an attestation that its attestor signed agrees with a receipt that its
/// executor signed.
pub open spec fn attests(a: ExecutionAttestationView, receipt: ExecutionReceiptView) -> Result<
    (),
    ExecutionReceiptErrorView,
> {
    both(
        attestation_signed(a),
        both(
            receipt_signed(receipt),
            if a.task_id != receipt.task_id || a.executor != receipt.executor
                || a.receipt_signature_hex != receipt_mark(receipt) || a.exit_code
                != receipt.exit_code {
                Err(ExecutionReceiptErrorView::ReceiptMismatch)
            } else if a.stdout_cid != receipt.stdout_cid || a.stderr_cid != receipt.stderr_cid
                || a.output_root != receipt.output_root {
                Err(ExecutionReceiptErrorView::OutputCidMismatch)
            } else {
                Ok(())
            },
        ),
    )
}

impl ExecutionAttestation {
    /// An unsigned attestation of what an observer saw of an execution.
    pub fn from_process_output(
        receipt: &ExecutionReceipt,
        attestor: Did,
        output: &ProcessOutput,
        output_root: Option<Cid>,
        observed_at: u64,
    ) -> (r: Self)
        ensures
            r.deep_view() == (ExecutionAttestationView {
                task_id: receipt.deep_view().task_id,
                executor: receipt.deep_view().executor,
                attestor: attestor.deep_view(),
                receipt_signature_hex: receipt_mark(receipt.deep_view()),
                exit_code: output.deep_view().exit_code,
                stdout_cid: outside::sha256_of(output.deep_view().stdout),
                stderr_cid: outside::sha256_of(output.deep_view().stderr),
                output_root: output_root.deep_view(),
                observed_at,
                signature: None,
            }),
    {
        ExecutionAttestation {
            task_id: receipt.task_id.twin(),
            executor: receipt.executor.twin(),
            attestor,
            receipt_signature_hex: mark_of(receipt),
            exit_code: output.exit_code,
            stdout_cid: Cid::hash_of(output.stdout.as_slice()),
            stderr_cid: Cid::hash_of(output.stderr.as_slice()),
            output_root,
            observed_at,
            signature: None,
        }
    }

    /// The bytes that the attestor signs: every field but the signature.
    pub fn signing_payload(&self) -> (r: Vec<u8>)
        ensures
            r@ == attestation_payload(self.deep_view()),
    {
        let document = Fields::new()
            .with("task_id", self.task_id.to_wire())
            .with("executor", self.executor.to_wire())
            .with("attestor", self.attestor.to_wire())
            .with("receipt_signature_hex", self.receipt_signature_hex.to_wire())
            .with("exit_code", self.exit_code.to_wire())
            .with("stdout_cid", self.stdout_cid.to_wire())
            .with("stderr_cid", self.stderr_cid.to_wire())
            .with("output_root", self.output_root.to_wire())
            .with("observed_at", self.observed_at.to_wire())
            .done();
        wire::json_bytes(&document)
    }

    /// Signs the attestation; only its attestor may. A signed attestation
    /// verifies.
    pub fn sign(self, identity: &NodeIdentity) -> (r: Result<Self, ExecutionReceiptError>)
        ensures
            outcome(r) == (if self.deep_view().attestor == identity.name() {
                Ok(
                    ExecutionAttestationView {
                        signature: Some(
                            outside::signature_of(
                                identity.seed(),
                                attestation_payload(self.deep_view()),
                            ),
                        ),
                        ..self.deep_view()
                    },
                )
            } else {
                Err(
                    ExecutionReceiptErrorView::ExecutorSignerMismatch {
                        executor: self.deep_view().attestor,
                        signer: identity.name(),
                    },
                )
            }),
            r matches Ok(a) ==> attestation_signed(a.deep_view()) is Ok,
    {
        let mut r = self;
        if !r.attestor.same(identity.did()) {
            return Err(
                ExecutionReceiptError::ExecutorSignerMismatch {
                    executor: r.attestor,
                    signer: identity.did().twin(),
                },
            );
        }
        let payload = r.signing_payload();
        r.signature = Some(identity.sign(payload.as_slice()));
        Ok(r)
    }

    /// Checks the attestor's signature.
    pub fn verify_signature(&self) -> (r: Result<(), ExecutionReceiptError>)
        ensures
            outcome(r) == attestation_signed(self.deep_view()),
    {
        if self.signature.is_none() {
            return Err(ExecutionReceiptError::MissingSignature);
        }
        let payload = self.signing_payload();
        check_signed(&self.attestor, payload.as_slice(), &self.signature)
    }

    /// Checks both signatures and that the attestation is about the receipt.
    pub fn validate_against_receipt(&self, receipt: &ExecutionReceipt) -> (r: Result<
        (),
        ExecutionReceiptError,
    >)
        ensures
            outcome(r) == attests(self.deep_view(), receipt.deep_view()),
    {
        if let Err(e) = self.verify_signature() {
            return Err(e);
        }
        if let Err(e) = receipt.verify_signature() {
            return Err(e);
        }
        let mark = mark_of(receipt);
        if !self.task_id.same(&receipt.task_id) || !self.executor.same(&receipt.executor)
            || !self.receipt_signature_hex.same(&mark) || self.exit_code != receipt.exit_code {
            return Err(ExecutionReceiptError::ReceiptMismatch);
        }
        if !self.stdout_cid.same(&receipt.stdout_cid) || !self.stderr_cid.same(
            &receipt.stderr_cid,
        ) || !same_root(&self.output_root, &receipt.output_root) {
            return Err(ExecutionReceiptError::OutputCidMismatch);
        }
        Ok(())
    }
}

fn mark_of(receipt: &ExecutionReceipt) -> (r: String)
    ensures
        r@ == receipt_mark(receipt.deep_view()),
{
    match &receipt.signature {
        Some(s) => outside::hex_encode(s.as_slice()),
        None => String::new(),
    }
}

fn same_root(a: &Option<Cid>, b: &Option<Cid>) -> (r: bool)
    ensures
        r == (a.deep_view() == b.deep_view()),
{
    match (a, b) {
        (Some(x), Some(y)) => x.same(y),
        (None, None) => true,
        _ => false,
    }
}

/// Whether two lists of texts are equal.
pub fn same_texts(a: &Vec<String>, b: &Vec<String>) -> (r: bool)
    ensures
        r == (a.deep_view() == b.deep_view()),
{
    if a.len() != b.len() {
        assert(a.deep_view().len() != b.deep_view().len());
        return false;
    }
    let mut i: usize = 0;
    while i < a.len()
        invariant
            i <= a@.len(),
            a@.len() == b@.len(),
            forall|j: int| 0 <= j < i ==> a.deep_view()[j] == b.deep_view()[j],
        decreases a@.len() - i,
    {
        if !a[i].same(&b[i]) {
            assert(a.deep_view()[i as int] != b.deep_view()[i as int]);
            return false;
        }
        i = i + 1;
    }
    assert(a.deep_view() =~= b.deep_view());
    true
}

/// Whether a receipt, where there is one, proves the result.
pub open spec fn receipt_proves(v: TaskResultView) -> Result<(), ExecutionReceiptErrorView> {
    match v.receipt {
        None => Ok(()),
        Some(receipt) => both(
            receipt_signed(receipt),
            if receipt.task_id != v.task_id || receipt.executor != v.executor
                || receipt.exit_code != v.exit_code {
                Err(ExecutionReceiptErrorView::ReceiptMismatch)
            } else if receipt.stdout_cid != outside::sha256_of(encode_utf8(v.stdout))
                || receipt.stderr_cid != outside::sha256_of(encode_utf8(v.stderr)) {
                Err(ExecutionReceiptErrorView::OutputCidMismatch)
            } else if v.success && v.exit_code != 0 {
                Err(ExecutionReceiptErrorView::SuccessExitCodeMismatch)
            } else {
                Ok(())
            },
        ),
    }
}

/// The identifier of the bytes of a text.
pub fn text_cid(s: &str) -> (r: Cid)
    ensures
        r.deep_view() == outside::sha256_of(encode_utf8(s@)),
{
    let bytes = text::bytes_of(s);
    Cid::hash_of(bytes.as_slice())
}

impl TaskResult {
    /// Checks the receipt, where there is one, against the result.
    pub fn validate_receipt(&self) -> (r: Result<(), ExecutionReceiptError>)
        ensures
            outcome(r) == receipt_proves(self.deep_view()),
    {
        match &self.receipt {
            None => Ok(()),
            Some(receipt) => {
                if let Err(e) = receipt.verify_signature() {
                    return Err(e);
                }
                if !receipt.task_id.same(&self.task_id) || !receipt.executor.same(&self.executor)
                    || receipt.exit_code != self.exit_code {
                    return Err(ExecutionReceiptError::ReceiptMismatch);
                }
                if !receipt.stdout_cid.same(&text_cid(self.stdout.as_str()))
                    || !receipt.stderr_cid.same(&text_cid(self.stderr.as_str())) {
                    return Err(ExecutionReceiptError::OutputCidMismatch);
                }
                if self.success && self.exit_code != 0 {
                    return Err(ExecutionReceiptError::SuccessExitCodeMismatch);
                }
                Ok(())
            },
        }
    }
}

/// A random identifier: sixteen bytes in hexadecimal.
pub open spec fn random_form(id: Seq<char>) -> bool {
    exists|bytes: Seq<u8>| bytes.len() == 16 && id == #[trigger] outside::hex_text(bytes)
}

/// Draws a random identifier.
pub fn random_id() -> (r: String)
    ensures
        random_form(r@),
{
    let bytes = outside::random_bytes(16);
    outside::hex_encode(bytes.as_slice())
}

/// The identifier of a spec: its own, or a hash of its content where it has none.
pub open spec fn spec_id(v: TaskSpecView) -> Seq<char> {
    if v.id.len() > 0 {
        v.id
    } else {
        "legacy-"@ + outside::hex_text(
            outside::sha256_of(
                wire::json(
                    WireView::Record(
                        Seq::<(Seq<char>, WireView)>::empty()
            .push(("publisher"@, Did::wire(v.publisher)))
            .push(("description"@, String::wire(v.description)))
            .push(("required_capability"@, String::wire(v.required_capability)))
            .push(("command"@, String::wire(v.command)))
            .push(("args"@, <Vec<String> as Encode>::wire(v.args)))
            .push(("max_budget"@, u64::wire(v.max_budget)))
            .push(("deadline"@, u64::wire(v.deadline)))
            .push(("created_at"@, u64::wire(v.created_at))),
                    ),
                ),
            ).subrange(0, 16),
        )
    }
}

impl TaskSpec {
    /// A spec with a random identifier.
    pub fn new(
        publisher: Did,
        description: &str,
        required_capability: &str,
        command: &str,
        args: Vec<String>,
        max_budget: u64,
        deadline: u64,
        created_at: u64,
    ) -> (r: Self)
        ensures
            random_form(r.deep_view().id),
            r.deep_view() == (TaskSpecView {
                id: r.deep_view().id,
                publisher: publisher.deep_view(),
                description: description@,
                required_capability: required_capability@,
                command: command@,
                args: args.deep_view(),
                max_budget,
                deadline,
                created_at,
            }),
    {
        TaskSpec {
            id: random_id(),
            publisher,
            description: text::owned(description),
            required_capability: text::owned(required_capability),
            command: text::owned(command),
            args,
            max_budget,
            deadline,
            created_at,
        }
    }

    /// The stable identifier. Specs without one get a hash of their content, so
    /// that all peers agree.
    pub fn resolved_id(&self) -> (r: String)
        ensures
            r@ == spec_id(self.deep_view()),
    {
        if self.id.as_str().unicode_len() > 0 {
            return self.id.twin();
        }
        let document = Fields::new()
            .with("publisher", self.publisher.to_wire())
            .with("description", self.description.to_wire())
            .with("required_capability", self.required_capability.to_wire())
            .with("command", self.command.to_wire())
            .with("args", self.args.to_wire())
            .with("max_budget", self.max_budget.to_wire())
            .with("deadline", self.deadline.to_wire())
            .with("created_at", self.created_at.to_wire())
            .done();
        let payload = wire::json_bytes(&document);
        let digest = outside::sha256(payload.as_slice());
        let short = vstd::slice::slice_subrange(digest.as_slice(), 0, 16);
        let tail = outside::hex_encode(short);
        text::joined_pair("legacy-", tail.as_str())
    }
}

/// The task of a spec.
pub open spec fn task_of(v: TaskSpecView) -> TaskView {
    TaskView {
        id: spec_id(v),
        publisher: v.publisher,
        description: v.description,
        required_capability: v.required_capability,
        command: v.command,
        args: v.args,
        input: None,
        max_budget: v.max_budget,
        deadline: v.deadline,
        state: TaskState::Published,
        assigned_to: None,
        created_at: v.created_at,
    }
}

/// The spec of a task.
pub open spec fn spec_of(v: TaskView) -> TaskSpecView {
    TaskSpecView {
        id: v.id,
        publisher: v.publisher,
        description: v.description,
        required_capability: v.required_capability,
        command: v.command,
        args: v.args,
        max_budget: v.max_budget,
        deadline: v.deadline,
        created_at: v.created_at,
    }
}

/// A spec with an identifier survives becoming a task and back.
pub proof fn lemma_spec_roundtrip(v: TaskSpecView)
    requires
        v.id.len() > 0,
    ensures
        spec_of(task_of(v)) == v,
{
}

/// Turning a task into a spec and back again changes the identifier no more,
/// whether the spec had one or not.
pub proof fn lemma_spec_id_is_stable(v: TaskSpecView)
    ensures
        spec_id(spec_of(task_of(v))) == spec_id(v),
{
    reveal_strlit("legacy-");
}

/// Whether a task awaits bids.
pub open spec fn open_for_bids(v: TaskView) -> bool {
    v.state == TaskState::Published
}

/// Whether a task has ended.
pub open spec fn ended(v: TaskView) -> bool {
    v.state == TaskState::Completed || v.state == TaskState::Failed || v.state
        == TaskState::Cancelled
}

impl Task {
    /// The task of a spec, published.
    pub fn from_spec(given: TaskSpec) -> (r: Self)
        ensures
            r.deep_view() == task_of(given.deep_view()),
    {
        let id = given.resolved_id();
        Task {
            id,
            publisher: given.publisher,
            description: given.description,
            required_capability: given.required_capability,
            command: given.command,
            args: given.args,
            input: None,
            max_budget: given.max_budget,
            deadline: given.deadline,
            state: TaskState::Published,
            assigned_to: None,
            created_at: given.created_at,
        }
    }

    /// The spec of the task.
    pub fn to_spec(&self) -> (r: TaskSpec)
        ensures
            r.deep_view() == spec_of(self.deep_view()),
    {
        TaskSpec {
            id: self.id.twin(),
            publisher: self.publisher.twin(),
            description: self.description.twin(),
            required_capability: self.required_capability.twin(),
            command: self.command.twin(),
            args: self.args.twin(),
            max_budget: self.max_budget,
            deadline: self.deadline,
            created_at: self.created_at,
        }
    }

    /// A published task with a random identifier.
    pub fn new(
        publisher: Did,
        description: &str,
        required_capability: &str,
        command: &str,
        args: Vec<String>,
        max_budget: u64,
        deadline: u64,
        now: u64,
    ) -> (r: Self)
        ensures
            random_form(r.deep_view().id),
            r.deep_view() == (TaskView {
                id: r.deep_view().id,
                publisher: publisher.deep_view(),
                description: description@,
                required_capability: required_capability@,
                command: command@,
                args: args.deep_view(),
                input: None,
                max_budget,
                deadline,
                state: TaskState::Published,
                assigned_to: None,
                created_at: now,
            }),
    {
        Self::from_spec(
            TaskSpec::new(
                publisher,
                description,
                required_capability,
                command,
                args,
                max_budget,
                deadline,
                now,
            ),
        )
    }

    /// Assigns the task to a bidder.
    pub fn accept_bid(&mut self, bidder: &Did)
        ensures
            final(self).deep_view() == (TaskView {
                state: TaskState::InProgress,
                assigned_to: Some(bidder.deep_view()),
                ..old(self).deep_view()
            }),
    {
        self.state = TaskState::InProgress;
        self.assigned_to = Some(bidder.twin());
    }

    /// Marks the task as completed.
    pub fn complete(&mut self)
        ensures
            final(self).deep_view() == (TaskView {
                state: TaskState::Completed,
                ..old(self).deep_view()
            }),
    {
        self.state = TaskState::Completed;
    }

    /// Marks the task as failed.
    pub fn fail(&mut self)
        ensures
            final(self).deep_view() == (TaskView {
                state: TaskState::Failed,
                ..old(self).deep_view()
            }),
    {
        self.state = TaskState::Failed;
    }

    /// Cancels the task.
    pub fn cancel(&mut self)
        ensures
            final(self).deep_view() == (TaskView {
                state: TaskState::Cancelled,
                ..old(self).deep_view()
            }),
    {
        self.state = TaskState::Cancelled;
    }

    /// Whether the task is still open for bids.
    pub fn is_open(&self) -> (r: bool)
        ensures
            r == open_for_bids(self.deep_view()),
    {
        self.state == TaskState::Published
    }

    /// Whether the task has ended.
    pub fn is_done(&self) -> (r: bool)
        ensures
            r == ended(self.deep_view()),
    {
        match self.state {
            TaskState::Completed | TaskState::Failed | TaskState::Cancelled => true,
            _ => false,
        }
    }
}

} // verus!
