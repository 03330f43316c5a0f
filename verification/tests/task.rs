//! Tasks, receipts and attestations.
use nexus::did::DidError;
use nexus::identity::NodeIdentity;
use nexus::task::{
    ExecutionAttestation, ExecutionReceipt, ExecutionReceiptError, Task, TaskResult, TaskSpec,
    TaskState,
};
use nexus::types::{Cid, Did, ProcessOutput, ResourceUsage, Span, WorkspaceId};

fn did(s: &str) -> Did {
    Did::new(&format!("did:key:{s}"))
}

#[test]
fn task_lifecycle() {
    let publisher = did("publisher");
    let worker = did("worker");

    let mut task = Task::new(
        publisher.clone(),
        "Run data analysis",
        "python-exec",
        "python",
        vec!["analysis.py".into()],
        100,
        9999999999,
        0,
    );

    assert!(task.is_open());
    assert!(!task.is_done());

    task.accept_bid(&worker);
    assert_eq!(task.state, TaskState::InProgress);
    assert_eq!(task.assigned_to, Some(worker));

    task.complete();
    assert!(task.is_done());
}

#[test]
fn task_id_is_unique() {
    let pub_did = did("pub");
    let t1 = Task::new(pub_did.clone(), "a", "cap", "cmd", vec![], 10, 999, 0);
    let t2 = Task::new(pub_did, "b", "cap", "cmd", vec![], 10, 999, 0);
    assert_ne!(t1.id, t2.id);
}

#[test]
fn task_from_spec_preserves_social_id() {
    let pub_did = did("pub");
    let spec = TaskSpec {
        id: "task-abc".into(),
        publisher: pub_did,
        description: "shared task".into(),
        required_capability: "python-exec".into(),
        command: "python".into(),
        args: vec!["script.py".into()],
        max_budget: 10,
        deadline: 999,
        created_at: 1,
    };

    let task = Task::from_spec(spec.clone());
    assert_eq!(task.id, "task-abc");
    assert_eq!(task.to_spec().id, spec.id);
}

#[test]
fn legacy_task_spec_resolves_to_deterministic_id() {
    let pub_did = did("pub");
    let first = TaskSpec {
        id: String::new(),
        publisher: pub_did,
        description: "old task".into(),
        required_capability: "shell".into(),
        command: "sh".into(),
        args: vec!["run.sh".into()],
        max_budget: 5,
        deadline: 100,
        created_at: 1,
    };
    let mut second = first.clone();

    assert_eq!(first.resolved_id(), second.resolved_id());
    second.description = "different task".into();
    assert_ne!(first.resolved_id(), second.resolved_id());
}

#[test]
fn execution_receipt_signs_process_output_cids() {
    let executor = NodeIdentity::generate();
    let output = ProcessOutput {
        exit_code: 0,
        stdout: b"hello".to_vec(),
        stderr: b"warning".to_vec(),
        resources: ResourceUsage {
            wall_time: Span { secs: 0, nanos: 25_000_000 },
            process_count: 1,
            ..Default::default()
        },
    };
    let receipt = ExecutionReceipt::from_process_output(
        "task-1",
        executor.did().clone(),
        None,
        "echo",
        vec!["hello".into()],
        &output,
        Some(Cid::hash_of(b"workspace-root")),
        10,
        11,
    )
    .sign(&executor)
    .unwrap();

    receipt.verify_signature().unwrap();
    assert_eq!(receipt.stdout_cid, Cid::hash_of(b"hello"));
    assert_eq!(receipt.stderr_cid, Cid::hash_of(b"warning"));

    let result = TaskResult {
        task_id: "task-1".into(),
        executor: executor.did().clone(),
        success: true,
        exit_code: 0,
        stdout: "hello".into(),
        stderr: "warning".into(),
        actual_cost: 1,
        error: None,
        receipt: Some(Box::new(receipt)),
        attestations: Vec::new(),
    };
    result.validate_receipt().unwrap();
}

#[test]
fn receipt_verification_rejects_tampering_and_mismatch() {
    let executor = NodeIdentity::generate();
    let output = ProcessOutput {
        exit_code: 0,
        stdout: Vec::new(),
        stderr: Vec::new(),
        resources: ResourceUsage::default(),
    };
    let receipt = ExecutionReceipt::from_process_output(
        "task-1",
        executor.did().clone(),
        None,
        "true",
        Vec::new(),
        &output,
        None,
        10,
        11,
    )
    .sign(&executor)
    .unwrap();

    let mut tampered = receipt.clone();
    tampered.exit_code = 1;
    assert!(matches!(
        tampered.verify_signature().unwrap_err(),
        ExecutionReceiptError::SignatureVerificationFailed
    ));

    let mismatched = TaskResult {
        task_id: "task-2".into(),
        executor: executor.did().clone(),
        success: true,
        exit_code: 0,
        stdout: String::new(),
        stderr: String::new(),
        actual_cost: 1,
        error: None,
        receipt: Some(Box::new(receipt.clone())),
        attestations: Vec::new(),
    };
    assert!(matches!(
        mismatched.validate_receipt().unwrap_err(),
        ExecutionReceiptError::ReceiptMismatch
    ));

    let output_mismatched = TaskResult {
        task_id: "task-1".into(),
        executor: executor.did().clone(),
        success: true,
        exit_code: 0,
        stdout: "forged stdout".into(),
        stderr: String::new(),
        actual_cost: 1,
        error: None,
        receipt: Some(Box::new(receipt.clone())),
        attestations: Vec::new(),
    };
    assert!(matches!(
        output_mismatched.validate_receipt().unwrap_err(),
        ExecutionReceiptError::OutputCidMismatch
    ));

    let failed_output = ProcessOutput {
        exit_code: 1,
        stdout: Vec::new(),
        stderr: b"failed".to_vec(),
        resources: ResourceUsage::default(),
    };
    let failed_receipt = ExecutionReceipt::from_process_output(
        "task-1",
        executor.did().clone(),
        None,
        "false",
        Vec::new(),
        &failed_output,
        None,
        10,
        11,
    )
    .sign(&executor)
    .unwrap();
    let inconsistent_success = TaskResult {
        task_id: "task-1".into(),
        executor: executor.did().clone(),
        success: true,
        exit_code: 1,
        stdout: String::new(),
        stderr: "failed".into(),
        actual_cost: 1,
        error: None,
        receipt: Some(Box::new(failed_receipt)),
        attestations: Vec::new(),
    };
    assert!(matches!(
        inconsistent_success.validate_receipt().unwrap_err(),
        ExecutionReceiptError::SuccessExitCodeMismatch
    ));
}

fn output(stdout: &[u8]) -> ProcessOutput {
    ProcessOutput {
        exit_code: 0,
        stdout: stdout.to_vec(),
        stderr: Vec::new(),
        resources: ResourceUsage::default(),
    }
}

#[test]
fn receipt_payload_is_the_json_of_all_but_the_signature() {
    let receipt = ExecutionReceipt::from_process_output(
        "t",
        did("x"),
        Some(WorkspaceId::from_bytes([1; 32])),
        "echo",
        vec!["a".into()],
        &output(b""),
        None,
        3,
        4,
    );
    let value: serde_json::Value = serde_json::from_slice(&receipt.signing_payload()).unwrap();
    let keys: Vec<&String> = value.as_object().unwrap().keys().collect();
    assert_eq!(
        keys,
        [
            "task_id",
            "executor",
            "workspace",
            "command",
            "args",
            "exit_code",
            "stdout_cid",
            "stderr_cid",
            "output_root",
            "resources",
            "started_at",
            "finished_at"
        ]
    );
    assert_eq!(value["task_id"], "t");
    assert_eq!(value["args"][0], "a");
    assert_eq!(value["workspace"][31], 1);
    assert!(value["output_root"].is_null());
}

#[test]
fn receipt_errors_name_their_cause() {
    let executor = NodeIdentity::generate();
    let other = NodeIdentity::generate();
    let receipt = ExecutionReceipt::from_process_output(
        "t",
        executor.did().clone(),
        None,
        "true",
        Vec::new(),
        &output(b""),
        None,
        1,
        2,
    );
    assert!(matches!(
        receipt.verify_signature().unwrap_err(),
        ExecutionReceiptError::MissingSignature
    ));
    assert!(matches!(
        receipt.clone().sign(&other).unwrap_err(),
        ExecutionReceiptError::ExecutorSignerMismatch { .. }
    ));
    let mut short = receipt.clone();
    short.signature = Some(vec![1]);
    assert!(matches!(
        short.verify_signature().unwrap_err(),
        ExecutionReceiptError::InvalidSignatureBytes
    ));
    let mut nobody = receipt.sign(&executor).unwrap();
    nobody.executor = Did::new("did:web:x");
    assert!(matches!(
        nobody.verify_signature().unwrap_err(),
        ExecutionReceiptError::InvalidExecutorDid(DidError::InvalidPrefix(_))
    ));
}

#[test]
fn attestation_agrees_with_the_receipt_that_it_is_about() {
    let executor = NodeIdentity::generate();
    let attestor = NodeIdentity::generate();
    let receipt = ExecutionReceipt::from_process_output(
        "t",
        executor.did().clone(),
        None,
        "echo",
        Vec::new(),
        &output(b"same"),
        None,
        1,
        2,
    )
    .sign(&executor)
    .unwrap();
    let same = ExecutionAttestation::from_process_output(
        &receipt,
        attestor.did().clone(),
        &output(b"same"),
        None,
        3,
    );
    assert!(matches!(
        same.validate_against_receipt(&receipt).unwrap_err(),
        ExecutionReceiptError::MissingSignature
    ));
    assert!(same.clone().sign(&executor).is_err());
    let same = same.sign(&attestor).unwrap();
    same.validate_against_receipt(&receipt).unwrap();

    let different = ExecutionAttestation::from_process_output(
        &receipt,
        attestor.did().clone(),
        &output(b"different"),
        None,
        3,
    )
    .sign(&attestor)
    .unwrap();
    assert!(matches!(
        different.validate_against_receipt(&receipt).unwrap_err(),
        ExecutionReceiptError::OutputCidMismatch
    ));
    let mut elsewhere = same.clone();
    elsewhere.task_id = "u".into();
    let elsewhere = elsewhere.sign(&attestor).unwrap();
    assert!(matches!(
        elsewhere.validate_against_receipt(&receipt).unwrap_err(),
        ExecutionReceiptError::ReceiptMismatch
    ));
}

#[test]
fn task_endings() {
    let mut task = Task::new(did("p"), "d", "c", "x", vec![], 1, 2, 3);
    assert_eq!(task.id.len(), 32);
    task.fail();
    assert!(task.is_done());
    task.cancel();
    assert_eq!(task.state, TaskState::Cancelled);
    assert!(!task.is_open());
}

#[test]
fn spec_identifier_is_stable_through_a_task() {
    let mut given = TaskSpec::new(did("p"), "d", "c", "x", vec![], 1, 2, 3);
    assert_eq!(Task::from_spec(given.clone()).to_spec(), given);
    given.id = String::new();
    let once = Task::from_spec(given.clone()).to_spec();
    assert!(once.id.starts_with("legacy-"));
    assert_eq!(once.id.len(), "legacy-".len() + 32);
    assert_eq!(once.resolved_id(), given.resolved_id());
}
