//! The task board.
use nexus::facts::{InteractionOutcome, TaskDispute};
use nexus::identity::NodeIdentity;
use nexus::task::{
    ExecutionReceipt, TaskAcceptance, TaskCancellation, TaskOffer, TaskResult, TaskSpec, TaskState,
};
use nexus::task_market::{TaskMarketEffect, TaskMarketProjection};
use nexus::types::{Cid, Did, ProcessOutput, ResourceUsage, WorkspaceId};

fn did(s: &str) -> Did {
    Did::new(&format!("did:key:{s}"))
}

fn task_spec(publisher: Did) -> TaskSpec {
    TaskSpec {
        id: "task-market-test".into(),
        publisher,
        description: "projection task".into(),
        required_capability: "shell".into(),
        command: "sh".into(),
        args: vec!["-c".into(), "true".into()],
        max_budget: 10,
        deadline: 100,
        created_at: 1,
    }
}

#[test]
fn delayed_offer_applies_known_acceptance() {
    let publisher = did("publisher");
    let worker = did("worker");
    let spec = task_spec(publisher.clone());
    let task_id = spec.id.clone();
    let mut market = TaskMarketProjection::new();

    assert!(market
        .record_acceptance(TaskAcceptance {
            task_id: task_id.clone(),
            publisher: publisher.clone(),
            bidder: worker.clone(),
            price: 7,
            accepted_at: 3,
        })
        .is_empty());
    assert!(market.publish_task(spec).is_empty());

    let effects = market.record_offer(TaskOffer {
        task_id: task_id.clone(),
        bidder: worker.clone(),
        price: 7,
        estimated_time_secs: 1,
        rationale: "ready".into(),
    });

    assert!(effects.is_empty());
    let task = market.task(&task_id).unwrap();
    assert_eq!(task.state, TaskState::InProgress);
    assert_eq!(task.assigned_to.as_ref(), Some(&worker));
    assert_eq!(market.task_acceptance(&task_id).unwrap().price, 7);
}

#[test]
fn accepted_receipted_result_emits_interaction_effect() {
    let publisher = did("publisher");
    let worker = NodeIdentity::generate();
    let worker_did = worker.did().clone();
    let spec = task_spec(publisher.clone());
    let task_id = spec.id.clone();
    let output = ProcessOutput {
        exit_code: 0,
        stdout: b"ok".to_vec(),
        stderr: Vec::new(),
        resources: ResourceUsage::default(),
    };
    let receipt = ExecutionReceipt::from_process_output(
        &task_id,
        worker_did.clone(),
        None,
        "sh",
        vec!["-c".into(), "true".into()],
        &output,
        None,
        4,
        5,
    )
    .sign(&worker)
    .unwrap();
    let mut market = TaskMarketProjection::new();

    market.publish_task(spec);
    market.record_offer(TaskOffer {
        task_id: task_id.clone(),
        bidder: worker_did.clone(),
        price: 7,
        estimated_time_secs: 1,
        rationale: "ready".into(),
    });
    market.record_acceptance(TaskAcceptance {
        task_id: task_id.clone(),
        publisher: publisher.clone(),
        bidder: worker_did.clone(),
        price: 7,
        accepted_at: 3,
    });

    let effects = market.record_result(
        TaskResult {
            task_id: task_id.clone(),
            executor: worker_did.clone(),
            success: true,
            exit_code: 0,
            stdout: "ok".into(),
            stderr: String::new(),
            actual_cost: 7,
            error: None,
            receipt: Some(Box::new(receipt)),
            attestations: Vec::new(),
        },
        6,
    );

    assert_eq!(market.task(&task_id).unwrap().state, TaskState::Completed);
    assert!(market.task_result(&task_id).is_some());
    assert_eq!(effects.len(), 1);
    match &effects[0] {
        TaskMarketEffect::Interaction(interaction) => {
            assert_eq!(interaction.from, publisher);
            assert_eq!(interaction.to, worker_did);
            assert_eq!(interaction.outcome, InteractionOutcome::Success);
            assert_eq!(interaction.evidence.as_deref(), Some(task_id.as_str()));
        }
        TaskMarketEffect::WorkspaceSnapshot(_) => {
            panic!("result without output root should not emit a workspace snapshot")
        }
    }
}

fn offer(bidder: &Did, price: u64) -> TaskOffer {
    TaskOffer {
        task_id: "task-market-test".into(),
        bidder: bidder.clone(),
        price,
        estimated_time_secs: 1,
        rationale: "ready".into(),
    }
}

fn acceptance(publisher: &Did, bidder: &Did, price: u64) -> TaskAcceptance {
    TaskAcceptance {
        task_id: "task-market-test".into(),
        publisher: publisher.clone(),
        bidder: bidder.clone(),
        price,
        accepted_at: 3,
    }
}

fn failure(executor: &Did) -> TaskResult {
    TaskResult {
        task_id: "task-market-test".into(),
        executor: executor.clone(),
        success: false,
        exit_code: 1,
        stdout: String::new(),
        stderr: String::new(),
        actual_cost: 1,
        error: None,
        receipt: None,
        attestations: Vec::new(),
    }
}

#[test]
fn offers_are_sorted_and_the_first_of_a_bidder_stands() {
    let mut market = TaskMarketProjection::new();
    market.record_offer(offer(&did("b"), 9));
    market.record_offer(offer(&did("c"), 5));
    market.record_offer(offer(&did("a"), 9));
    market.record_offer(offer(&did("b"), 1));
    let bids: Vec<(String, u64)> = market
        .task_offers("task-market-test")
        .iter()
        .map(|o| (o.bidder.to_string(), o.price))
        .collect();
    assert_eq!(
        bids,
        vec![
            ("did:key:c".to_string(), 5),
            ("did:key:a".to_string(), 9),
            ("did:key:b".to_string(), 9)
        ]
    );
}

#[test]
fn acceptance_needs_the_publisher_and_a_matching_offer() {
    let (publisher, worker) = (did("publisher"), did("worker"));
    let mut market = TaskMarketProjection::new();
    market.publish_task(task_spec(publisher.clone()));
    market.record_offer(offer(&worker, 7));
    market.record_acceptance(acceptance(&did("someone"), &worker, 7));
    market.record_acceptance(acceptance(&publisher, &worker, 6));
    assert_eq!(market.task("task-market-test").unwrap().state, TaskState::Published);
    assert!(market.task_acceptance("task-market-test").is_none());
    market.record_acceptance(acceptance(&publisher, &worker, 7));
    assert_eq!(market.task("task-market-test").unwrap().state, TaskState::InProgress);
}

#[test]
fn a_result_is_adopted_once() {
    let (publisher, worker) = (did("publisher"), did("worker"));
    let mut market = TaskMarketProjection::new();
    market.publish_task(task_spec(publisher.clone()));
    market.record_offer(offer(&worker, 7));
    market.record_acceptance(acceptance(&publisher, &worker, 7));
    assert_eq!(market.record_result(failure(&worker), 5).len(), 1);
    assert!(market.record_result(failure(&worker), 6).is_empty());
    let mut other = failure(&worker);
    other.exit_code = 2;
    assert!(market.record_result(other, 7).is_empty());
    assert_eq!(market.task_result_claims("task-market-test").len(), 2);
    assert_eq!(market.task_result("task-market-test").unwrap().exit_code, 1);
    assert_eq!(market.task("task-market-test").unwrap().state, TaskState::Failed);
}

#[test]
fn a_task_of_ones_own_gives_no_interaction() {
    let worker = did("worker");
    let mut market = TaskMarketProjection::new();
    market.publish_task(task_spec(worker.clone()));
    market.record_offer(offer(&worker, 7));
    market.record_acceptance(acceptance(&worker, &worker, 7));
    assert!(market.record_result(failure(&worker), 5).is_empty());
    assert_eq!(market.task("task-market-test").unwrap().state, TaskState::Failed);
}

#[test]
fn a_success_without_receipt_is_not_adopted() {
    let (publisher, worker) = (did("publisher"), did("worker"));
    let mut market = TaskMarketProjection::new();
    market.publish_task(task_spec(publisher.clone()));
    market.record_offer(offer(&worker, 7));
    market.record_acceptance(acceptance(&publisher, &worker, 7));
    let mut claim = failure(&worker);
    claim.success = true;
    claim.exit_code = 0;
    assert!(market.record_result(claim, 5).is_empty());
    assert!(market.task_result("task-market-test").is_none());
}

#[test]
fn a_cancelled_task_stays_cancelled() {
    let (publisher, worker) = (did("publisher"), did("worker"));
    let mut market = TaskMarketProjection::new();
    market.record_cancellation(TaskCancellation {
        task_id: "task-market-test".into(),
        publisher: publisher.clone(),
        reason: "no longer needed".into(),
        cancelled_at: 2,
    });
    market.publish_task(task_spec(publisher.clone()));
    assert_eq!(market.task("task-market-test").unwrap().state, TaskState::Cancelled);
    market.record_offer(offer(&worker, 7));
    market.record_acceptance(acceptance(&publisher, &worker, 7));
    market.record_result(failure(&worker), 5);
    assert_eq!(market.task("task-market-test").unwrap().state, TaskState::Cancelled);
    assert_eq!(
        market.task_cancellation("task-market-test").unwrap().reason,
        "no longer needed"
    );
}

#[test]
fn a_result_with_an_output_root_implies_a_snapshot() {
    let publisher = did("publisher");
    let worker = NodeIdentity::generate();
    let root = Cid::hash_of(b"root");
    let receipt = ExecutionReceipt::from_process_output(
        "task-market-test",
        worker.did().clone(),
        Some(WorkspaceId::from_bytes([4; 32])),
        "sh",
        vec!["-c".into(), "true".into()],
        &ProcessOutput {
            exit_code: 0,
            stdout: Vec::new(),
            stderr: Vec::new(),
            resources: ResourceUsage::default(),
        },
        Some(root),
        4,
        5,
    )
    .sign(&worker)
    .unwrap();
    let mut market = TaskMarketProjection::new();
    let mut claim = failure(worker.did());
    claim.success = true;
    claim.exit_code = 0;
    claim.receipt = Some(Box::new(receipt));
    assert!(market.record_result(claim, 6).is_empty());
    market.record_acceptance(acceptance(&publisher, worker.did(), 7));
    market.record_offer(offer(worker.did(), 7));
    let effects = market.publish_task(task_spec(publisher));
    assert_eq!(effects.len(), 2);
    match &effects[0] {
        TaskMarketEffect::WorkspaceSnapshot(snapshot) => {
            assert_eq!(snapshot.root, root);
            assert_eq!(snapshot.label.as_deref(), Some("task-result"));
            assert_eq!(snapshot.note.as_deref(), Some("task task-market-test result"));
            assert_eq!(snapshot.timestamp, 5);
        }
        other => panic!("unexpected effect: {other:?}"),
    }
    let shown = market.agent_verified_capabilities(worker.did());
    assert_eq!(shown.len(), 1);
    assert_eq!(shown[0].name, "shell");
    assert_eq!(shown[0].successful_tasks, 1);
    assert_eq!(shown[0].independently_attested_tasks, 0);
    assert_eq!(shown[0].latest_observed_at, 5);
}

#[test]
fn a_dispute_is_an_interaction_once() {
    let mut market = TaskMarketProjection::new();
    let dispute = TaskDispute {
        task_id: "t".into(),
        disputer: did("a"),
        target: did("b"),
        claim_id: Some("c1".into()),
        reason: "wrong".into(),
        evidence: None,
        timestamp: 9,
    };
    match market.record_dispute(dispute.clone()) {
        Some(TaskMarketEffect::Interaction(i)) => {
            assert_eq!(i.id, "task-dispute:t:did:key:a:did:key:b:c1");
            assert_eq!(i.topic, "task dispute: wrong (c1)");
            assert_eq!(i.evidence.as_deref(), Some("claim:c1"));
            assert_eq!(i.outcome, InteractionOutcome::Dispute);
        }
        other => panic!("unexpected effect: {other:?}"),
    }
    assert!(market.record_dispute(dispute).is_none());
    assert_eq!(market.task_disputes("t").len(), 1);
}
