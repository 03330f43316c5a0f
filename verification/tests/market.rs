//! The task market.
use nexus::ledger::CreditLedger;
use nexus::identity::NodeIdentity;
use nexus::manifest::{AgentManifest, CapabilityDecl};
use nexus::market::{MarketError, TaskMarket};
use nexus::registry::AgentRegistry;
use nexus::task::{ExecutionReceipt, ExecutionReceiptError, Task, TaskBid, TaskResult, TaskState};
use nexus::types::{Did, ProcessOutput, ResourceUsage};

fn did(s: &str) -> Did {
    Did::new(&format!("did:key:{s}"))
}

fn setup() -> (TaskMarket, AgentRegistry) {
    let market = TaskMarket::new();
    let mut registry = AgentRegistry::new();

    // Register a worker agent
    let worker = did("worker");
    let manifest = AgentManifest::new(worker.clone(), "worker", 0).provide(CapabilityDecl {
        name: "python-exec".into(),
        description: "Runs Python".into(),
        version: "1.0".into(),
        price_per_unit: 5,
        price_unit: "per-second".into(),
    });
    registry.register(manifest);

    (market, registry)
}

fn signed_receipt(
    identity: &NodeIdentity,
    task_id: &str,
    command: &str,
    args: Vec<String>,
    exit_code: i32,
) -> Box<ExecutionReceipt> {
    let output = ProcessOutput {
        exit_code,
        stdout: b"ok".to_vec(),
        stderr: Vec::new(),
        resources: ResourceUsage::default(),
    };

    Box::new(
        ExecutionReceipt::from_process_output(
            task_id,
            identity.did().clone(),
            None,
            command,
            args,
            &output,
            None,
            1,
            2,
        )
        .sign(identity)
        .unwrap(),
    )
}

#[test]
fn publish_and_bid() {
    let (mut market, registry) = setup();
    let publisher = did("publisher");
    let worker = did("worker");

    let task = Task::new(
        publisher,
        "test task",
        "python-exec",
        "python",
        vec!["script.py".into()],
        100,
        999999,
        0,
    );
    let task_id = task.id.clone();
    market.publish(task);

    let bid = TaskBid {
        task_id: task_id.clone(),
        bidder: worker,
        price: 30,
        estimated_time_secs: 10,
        rationale: "I can do this".into(),
    };

    market
        .submit_bid(bid, &registry)
        .expect("bid should succeed");
    assert_eq!(market.get_bids(&task_id).len(), 1);
}

#[test]
fn bid_exceeds_budget_rejected() {
    let (mut market, registry) = setup();
    let publisher = did("publisher");
    let worker = did("worker");

    let task = Task::new(publisher, "test", "python-exec", "cmd", vec![], 50, 999, 0);
    let task_id = task.id.clone();
    market.publish(task);

    let bid = TaskBid {
        task_id,
        bidder: worker,
        price: 100, // Exceeds budget of 50
        estimated_time_secs: 1,
        rationale: "".into(),
    };

    let err = market.submit_bid(bid, &registry).unwrap_err();
    assert!(matches!(err, MarketError::BidExceedsBudget));
}

#[test]
fn bid_missing_capability_rejected() {
    let (mut market, registry) = setup();
    let publisher = did("publisher");
    let noob = did("noob"); // Not in registry

    let task = Task::new(publisher, "test", "python-exec", "cmd", vec![], 100, 999, 0);
    let task_id = task.id.clone();
    market.publish(task);

    let bid = TaskBid {
        task_id,
        bidder: noob,
        price: 10,
        estimated_time_secs: 1,
        rationale: "".into(),
    };

    let err = market.submit_bid(bid, &registry).unwrap_err();
    assert!(matches!(err, MarketError::MissingCapability));
}

#[test]
fn complete_task_settles_payment() {
    let (mut market, registry) = setup();
    let publisher = did("publisher");
    let worker_identity = NodeIdentity::generate();
    let worker = worker_identity.did().clone();

    let mut registry = registry;
    registry.unregister(&did("worker"));
    registry.register(AgentManifest::new(worker.clone(), "worker", 0).provide(
        CapabilityDecl {
            name: "python-exec".into(),
            description: "Runs Python".into(),
            version: "1.0".into(),
            price_per_unit: 5,
            price_unit: "per-second".into(),
        },
    ));

    let task = Task::new(
        publisher.clone(),
        "test",
        "python-exec",
        "cmd",
        vec![],
        100,
        999,
        0,
    );
    let task_id = task.id.clone();
    market.publish(task);

    market
        .submit_bid(
            TaskBid {
                task_id: task_id.clone(),
                bidder: worker.clone(),
                price: 25,
                estimated_time_secs: 1,
                rationale: "ready".into(),
            },
            &registry,
        )
        .unwrap();
    market.accept_bid(&task_id, &worker).expect("accept bid");

    let mut ledger = CreditLedger::new();
    ledger.get_or_create(&worker, 1000, 1000, 0);

    let result = TaskResult {
        task_id: task_id.clone(),
        executor: worker.clone(),
        success: true,
        exit_code: 0,
        stdout: "ok".into(),
        stderr: String::new(),
        actual_cost: 25,
        error: None,
        receipt: Some(signed_receipt(
            &worker_identity,
            &task_id,
            "cmd",
            Vec::new(),
            0,
        )),
        attestations: Vec::new(),
    };

    market
        .complete_task(result, &mut ledger, 1)
        .expect("complete");
    // Publisher paid worker 25
    assert_eq!(ledger.get(&worker).unwrap().balance, -25);
}

#[test]
fn successful_completion_requires_signed_receipt() {
    let (mut market, registry) = setup();
    let publisher = did("publisher");
    let worker = did("worker");
    let task = Task::new(publisher, "test", "python-exec", "cmd", vec![], 100, 999, 0);
    let task_id = task.id.clone();
    market.publish(task);
    market
        .submit_bid(
            TaskBid {
                task_id: task_id.clone(),
                bidder: worker.clone(),
                price: 25,
                estimated_time_secs: 1,
                rationale: "ready".into(),
            },
            &registry,
        )
        .unwrap();
    market.accept_bid(&task_id, &worker).unwrap();

    let mut ledger = CreditLedger::new();
    ledger.get_or_create(&worker, 1000, 1000, 0);
    let err = market
        .complete_task(
            TaskResult {
                task_id,
                executor: worker.clone(),
                success: true,
                exit_code: 0,
                stdout: "ok".into(),
                stderr: String::new(),
                actual_cost: 25,
                error: None,
                receipt: None,
                attestations: Vec::new(),
            },
            &mut ledger,
            1,
        )
        .unwrap_err();

    assert!(matches!(err, MarketError::MissingExecutionReceipt));
    assert_eq!(ledger.get(&worker).unwrap().balance, 0);
}

#[test]
fn completion_rejects_mismatched_receipt_before_settlement() {
    let (mut market, registry) = setup();
    let publisher = did("publisher");
    let worker_identity = NodeIdentity::generate();
    let worker = worker_identity.did().clone();

    let mut registry = registry;
    registry.unregister(&did("worker"));
    registry.register(AgentManifest::new(worker.clone(), "worker", 0).provide(
        CapabilityDecl {
            name: "python-exec".into(),
            description: "Runs Python".into(),
            version: "1.0".into(),
            price_per_unit: 5,
            price_unit: "per-second".into(),
        },
    ));

    let task = Task::new(publisher, "test", "python-exec", "cmd", vec![], 100, 999, 0);
    let task_id = task.id.clone();
    market.publish(task);
    market
        .submit_bid(
            TaskBid {
                task_id: task_id.clone(),
                bidder: worker.clone(),
                price: 25,
                estimated_time_secs: 1,
                rationale: "ready".into(),
            },
            &registry,
        )
        .unwrap();
    market.accept_bid(&task_id, &worker).unwrap();

    let mut ledger = CreditLedger::new();
    ledger.get_or_create(&worker, 1000, 1000, 0);
    let err = market
        .complete_task(
            TaskResult {
                task_id: task_id.clone(),
                executor: worker.clone(),
                success: true,
                exit_code: 1,
                stdout: "ok".into(),
                stderr: String::new(),
                actual_cost: 25,
                error: None,
                receipt: Some(signed_receipt(
                    &worker_identity,
                    &task_id,
                    "cmd",
                    Vec::new(),
                    0,
                )),
                attestations: Vec::new(),
            },
            &mut ledger,
            1,
        )
        .unwrap_err();

    assert!(matches!(err, MarketError::InvalidExecutionReceipt(_)));
    assert_eq!(ledger.get(&worker).unwrap().balance, 0);
}

#[test]
fn completion_rejects_cost_above_accepted_bid() {
    let (mut market, registry) = setup();
    let publisher = did("publisher");
    let worker_identity = NodeIdentity::generate();
    let worker = worker_identity.did().clone();

    let mut registry = registry;
    registry.unregister(&did("worker"));
    registry.register(AgentManifest::new(worker.clone(), "worker", 0).provide(
        CapabilityDecl {
            name: "python-exec".into(),
            description: "Runs Python".into(),
            version: "1.0".into(),
            price_per_unit: 5,
            price_unit: "per-second".into(),
        },
    ));

    let task = Task::new(publisher, "test", "python-exec", "cmd", vec![], 100, 999, 0);
    let task_id = task.id.clone();
    market.publish(task);
    market
        .submit_bid(
            TaskBid {
                task_id: task_id.clone(),
                bidder: worker.clone(),
                price: 10,
                estimated_time_secs: 1,
                rationale: "low fixed price".into(),
            },
            &registry,
        )
        .unwrap();
    market.accept_bid(&task_id, &worker).unwrap();

    let mut ledger = CreditLedger::new();
    ledger.get_or_create(&worker, 1000, 1000, 0);
    let err = market
        .complete_task(
            TaskResult {
                task_id: task_id.clone(),
                executor: worker.clone(),
                success: true,
                exit_code: 0,
                stdout: "ok".into(),
                stderr: String::new(),
                actual_cost: 25,
                error: None,
                receipt: Some(signed_receipt(
                    &worker_identity,
                    &task_id,
                    "cmd",
                    Vec::new(),
                    0,
                )),
                attestations: Vec::new(),
            },
            &mut ledger,
            1,
        )
        .unwrap_err();

    assert!(matches!(err, MarketError::ResultExceedsAcceptedBid));
    assert_eq!(ledger.get(&worker).unwrap().balance, 0);
}

#[test]
fn completion_rejects_receipt_for_different_command() {
    let (mut market, registry) = setup();
    let publisher = did("publisher");
    let worker_identity = NodeIdentity::generate();
    let worker = worker_identity.did().clone();

    let mut registry = registry;
    registry.unregister(&did("worker"));
    registry.register(AgentManifest::new(worker.clone(), "worker", 0).provide(
        CapabilityDecl {
            name: "python-exec".into(),
            description: "Runs Python".into(),
            version: "1.0".into(),
            price_per_unit: 5,
            price_unit: "per-second".into(),
        },
    ));

    let task = Task::new(
        publisher,
        "test",
        "python-exec",
        "python",
        vec!["script.py".into()],
        100,
        999,
        0,
    );
    let task_id = task.id.clone();
    market.publish(task);
    market
        .submit_bid(
            TaskBid {
                task_id: task_id.clone(),
                bidder: worker.clone(),
                price: 25,
                estimated_time_secs: 1,
                rationale: "ready".into(),
            },
            &registry,
        )
        .unwrap();
    market.accept_bid(&task_id, &worker).unwrap();

    let mut ledger = CreditLedger::new();
    ledger.get_or_create(&worker, 1000, 1000, 0);
    let err = market
        .complete_task(
            TaskResult {
                task_id: task_id.clone(),
                executor: worker.clone(),
                success: true,
                exit_code: 0,
                stdout: "ok".into(),
                stderr: String::new(),
                actual_cost: 25,
                error: None,
                receipt: Some(signed_receipt(
                    &worker_identity,
                    &task_id,
                    "sh",
                    vec!["other.sh".into()],
                    0,
                )),
                attestations: Vec::new(),
            },
            &mut ledger,
            1,
        )
        .unwrap_err();

    assert!(matches!(err, MarketError::ReceiptCommandMismatch));
    assert_eq!(ledger.get(&worker).unwrap().balance, 0);
}

#[test]
fn failed_completion_records_result_without_settlement() {
    let (mut market, registry) = setup();
    let publisher = did("publisher");
    let worker = did("worker");
    let task = Task::new(publisher, "test", "python-exec", "cmd", vec![], 100, 999, 0);
    let task_id = task.id.clone();
    market.publish(task);
    market
        .submit_bid(
            TaskBid {
                task_id: task_id.clone(),
                bidder: worker.clone(),
                price: 25,
                estimated_time_secs: 1,
                rationale: "ready".into(),
            },
            &registry,
        )
        .unwrap();
    market.accept_bid(&task_id, &worker).unwrap();

    let mut ledger = CreditLedger::new();
    ledger.get_or_create(&worker, 1000, 1000, 0);
    market
        .complete_task(
            TaskResult {
                task_id: task_id.clone(),
                executor: worker.clone(),
                success: false,
                exit_code: 7,
                stdout: String::new(),
                stderr: "failed".into(),
                actual_cost: 25,
                error: Some("failed".into()),
                receipt: None,
                attestations: Vec::new(),
            },
            &mut ledger,
            1,
        )
        .unwrap();

    assert_eq!(ledger.get(&worker).unwrap().balance, 0);
    assert!(market.get_task(&task_id).unwrap().is_done());
}

#[test]
fn accept_bid_requires_submitted_bid() {
    let (mut market, _registry) = setup();
    let publisher = did("publisher");
    let worker = did("worker");
    let task = Task::new(publisher, "test", "python-exec", "cmd", vec![], 100, 999, 0);
    let task_id = task.id.clone();
    market.publish(task);

    let err = market.accept_bid(&task_id, &worker).unwrap_err();
    assert!(matches!(err, MarketError::BidNotFound));
}

#[test]
fn complete_task_rejects_wrong_executor() {
    let (mut market, registry) = setup();
    let publisher = did("publisher");
    let worker = did("worker");
    let intruder = did("intruder");
    let task = Task::new(publisher, "test", "python-exec", "cmd", vec![], 100, 999, 0);
    let task_id = task.id.clone();
    market.publish(task);
    market
        .submit_bid(
            TaskBid {
                task_id: task_id.clone(),
                bidder: worker.clone(),
                price: 25,
                estimated_time_secs: 1,
                rationale: "ready".into(),
            },
            &registry,
        )
        .unwrap();
    market.accept_bid(&task_id, &worker).unwrap();

    let mut ledger = CreditLedger::new();
    ledger.get_or_create(&intruder, 1000, 1000, 0);
    let err = market
        .complete_task(
            TaskResult {
                task_id,
                executor: intruder,
                success: true,
                exit_code: 0,
                stdout: "ok".into(),
                stderr: String::new(),
                actual_cost: 25,
                error: None,
                receipt: None,
                attestations: Vec::new(),
            },
            &mut ledger,
            1,
        )
        .unwrap_err();
    assert!(matches!(err, MarketError::ResultExecutorMismatch));
}

#[test]
fn cheapest_bid_wins() {
    let (mut market, registry) = setup();
    let publisher = did("publisher");
    let worker_a = did("worker");
    let worker_b = did("workerB");

    // Register worker B too
    let manifest_b =
        AgentManifest::new(worker_b.clone(), "workerB", 0).provide(CapabilityDecl {
            name: "python-exec".into(),
            description: "Runs Python".into(),
            version: "1.0".into(),
            price_per_unit: 2,
            price_unit: "per-second".into(),
        });
    let mut registry = registry;
    registry.register(manifest_b);

    let task = Task::new(publisher, "test", "python-exec", "cmd", vec![], 100, 999, 0);
    let task_id = task.id.clone();
    market.publish(task);

    market
        .submit_bid(
            TaskBid {
                task_id: task_id.clone(),
                bidder: worker_a,
                price: 30,
                estimated_time_secs: 10,
                rationale: "".into(),
            },
            &registry,
        )
        .unwrap();

    market
        .submit_bid(
            TaskBid {
                task_id: task_id.clone(),
                bidder: worker_b.clone(),
                price: 15,
                estimated_time_secs: 20,
                rationale: "".into(),
            },
            &registry,
        )
        .unwrap();

    let cheapest = market.cheapest_bid(&task_id).unwrap();
    assert_eq!(cheapest.bidder, worker_b);
    assert_eq!(cheapest.price, 15);
}

fn bid(task_id: &str, bidder: &Did, price: u64) -> TaskBid {
    TaskBid {
        task_id: task_id.into(),
        bidder: bidder.clone(),
        price,
        estimated_time_secs: 1,
        rationale: String::new(),
    }
}

fn plain_result(task_id: &str, executor: &Did, cost: u64) -> TaskResult {
    TaskResult {
        task_id: task_id.into(),
        executor: executor.clone(),
        success: false,
        exit_code: 1,
        stdout: String::new(),
        stderr: String::new(),
        actual_cost: cost,
        error: None,
        receipt: None,
        attestations: Vec::new(),
    }
}

#[test]
fn market_errors_name_their_cause() {
    let (mut market, registry) = setup();
    let worker = did("worker");
    let mut ledger = CreditLedger::new();
    assert!(matches!(
        market.submit_bid(bid("nope", &worker, 1), &registry).unwrap_err(),
        MarketError::TaskNotFound(id) if id == "nope"
    ));
    assert!(matches!(
        market.cancel_task("nope").unwrap_err(),
        MarketError::TaskNotFound(_)
    ));
    assert!(matches!(
        market
            .complete_task(plain_result("nope", &worker, 1), &mut ledger, 0)
            .unwrap_err(),
        MarketError::TaskNotFound(_)
    ));

    let task = Task::new(did("p"), "t", "python-exec", "cmd", vec![], 50, 999, 0);
    let id = task.id.clone();
    market.publish(task);
    assert!(matches!(
        market
            .complete_task(plain_result(&id, &worker, 1), &mut ledger, 0)
            .unwrap_err(),
        MarketError::TaskNotAssigned
    ));
    market.submit_bid(bid(&id, &worker, 40), &registry).unwrap();
    market.accept_bid(&id, &worker).unwrap();
    assert!(matches!(
        market.submit_bid(bid(&id, &worker, 1), &registry).unwrap_err(),
        MarketError::TaskNotOpen
    ));
    assert!(matches!(
        market.accept_bid(&id, &worker).unwrap_err(),
        MarketError::TaskNotOpen
    ));
    assert!(matches!(
        market
            .complete_task(plain_result(&id, &worker, 51), &mut ledger, 0)
            .unwrap_err(),
        MarketError::ResultExceedsBudget
    ));
    assert_eq!(market.active_count(), 1);
    market.cancel_task(&id).unwrap();
    assert_eq!(market.active_count(), 0);
}

#[test]
fn a_payment_that_fails_still_ends_the_task() {
    let (mut market, mut registry) = setup();
    let identity = NodeIdentity::generate();
    let worker = identity.did().clone();
    registry.register(AgentManifest::new(worker.clone(), "w", 0).provide(CapabilityDecl {
        name: "python-exec".into(),
        description: String::new(),
        version: "1".into(),
        price_per_unit: 1,
        price_unit: "per-second".into(),
    }));
    let task = Task::new(did("p"), "t", "python-exec", "cmd", vec![], 50, 999, 0);
    let id = task.id.clone();
    market.publish(task);
    market.submit_bid(bid(&id, &worker, 40), &registry).unwrap();
    market.accept_bid(&id, &worker).unwrap();
    let mut ledger = CreditLedger::new();
    let mut result = plain_result(&id, &worker, 40);
    result.success = true;
    result.exit_code = 0;
    result.stdout = "ok".into();
    result.receipt = Some(signed_receipt(&identity, &id, "cmd", Vec::new(), 0));
    assert!(matches!(
        market.complete_task(result, &mut ledger, 1).unwrap_err(),
        MarketError::SettlementFailed(message) if message == "no credit line with this counterparty"
    ));
    assert_eq!(market.get_task(&id).unwrap().state, TaskState::Completed);
    assert!(ledger.is_empty());
}

#[test]
fn open_tasks_by_capability() {
    let (mut market, _registry) = setup();
    market.publish(Task::new(did("p"), "a", "x", "c", vec![], 1, 2, 3));
    market.publish(Task::new(did("p"), "b", "y", "c", vec![], 1, 2, 3));
    assert_eq!(market.open_tasks().len(), 2);
    assert_eq!(market.open_tasks_for("y").len(), 1);
    assert_eq!(market.open_tasks_for("y")[0].description, "b");
    assert!(market.get_bids("none").is_empty());
    assert!(market.cheapest_bid("none").is_none());
}
