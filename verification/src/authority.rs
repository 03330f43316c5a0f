//! What signatures and delegation promise: who may act for whom, until when, and
//! what a receipt, an attestation or an event must show to be believed.
use crate::capability::{
    delegation_verdict, signature_covers, tagged_payload, undelegated_payload, untagged_payload,
    verified, verified_for, SigningErrorView,
};
use crate::did;
use crate::facts::settlement_valid;
use crate::identity::{
    did_accepts, restored, unlocked, EncryptedIdentityKeyView, IdentitySignatureErrorView,
    StoredIdentityFileView,
};
use crate::legacy::legacy_content;
use crate::outside;
use crate::protocol::{
    claims_own, content_hash, equivocates, event_content, event_valid, kind_wire, speaks_for_all,
    EquivocationProofView, SocialEventKindView, SocialEventView,
};
use crate::settlement::{anchor_valid, terms_payload};
use crate::task::{
    attestation_payload, attestation_signed, attests, receipt_mark, receipt_payload, receipt_proves,
    receipt_signed, spec_id, task_of, ExecutionAttestationView, ExecutionReceiptView,
    TaskResultView, TaskSpecView, TaskState,
};
use crate::types::{
    capability_wire, CapabilityView, Cid, Did, PermissionSet, ResourceUsage, WorkspaceId,
};
use crate::wire::{self, Encode, WireView};
use vstd::prelude::*;
use vstd::string::*;
use vstd::utf8::encode_utf8;

verus! {

/// An administrator may do everything; anyone else only what is allowed outright.
pub proof fn lemma_admin_may_all(p: PermissionSet)
    ensures
        p.admin ==> p.may_read() && p.may_write() && p.may_exec(),
        !p.admin ==> p.may_read() == p.read && p.may_write() == p.write && p.may_exec()
            == p.execute,
{
}

/// Whether a grant stays within another: nothing may be done with it that may not
/// be done with the other, and none but an administrator's makes an administrator.
pub open spec fn no_more_than(child: PermissionSet, parent: PermissionSet) -> bool {
    &&& child.may_read() ==> parent.may_read()
    &&& child.may_write() ==> parent.may_write()
    &&& child.may_exec() ==> parent.may_exec()
    &&& child.admin ==> parent.admin
}

/// Whether a token can be the parent of another: it holds for the one who issued
/// the other, in the same workspace, at least as long, for at least as much, and
/// with depth to spare.
pub open spec fn can_stand_behind(parent: CapabilityView, child: CapabilityView) -> bool {
    &&& parent.subject == child.issuer
    &&& parent.workspace == child.workspace
    &&& child.expires_at <= parent.expires_at
    &&& no_more_than(child.permissions, parent.permissions)
    &&& parent.delegation_depth matches Some(p) && (match child.delegation_depth {
        Some(c) => c < p,
        None => 0 < p,
    })
}

/// A token holds exactly while it has not expired, is signed by its issuer, and,
/// where it was delegated, its parent holds and can stand behind it.
pub proof fn lemma_token_holds(v: CapabilityView, now: u64)
    ensures
        verified(v, now) is Ok <==> now < v.expires_at && (did::did_key(v.issuer) matches Ok(key)
            && outside::is_public_key(key) && v.signature.len() == 64 && signature_covers(key, v))
            && (v.parent matches Some(p) ==> verified(*p, now) is Ok && can_stand_behind(*p, v)),
{
}

/// A token that holds held at every earlier time, and none holds once it has
/// expired.
pub proof fn lemma_token_holds_until_expiry(v: CapabilityView, now: u64, earlier: u64)
    requires
        verified(v, now) is Ok,
        earlier <= now,
    ensures
        verified(v, earlier) is Ok,
        now < v.expires_at,
    decreases v,
{
    if let Some(p) = v.parent {
        lemma_token_holds_until_expiry(*p, now, earlier);
    }
}

/// A token that was delegated, or may be, is not covered by a signature that says
/// nothing of delegation.
pub proof fn lemma_delegation_is_signed(key: Seq<u8>, v: CapabilityView)
    requires
        v.parent is Some || v.delegation_depth is Some,
    ensures
        signature_covers(key, v) <==> outside::accepts(key, tagged_payload(v), v.signature)
            || outside::accepts(key, untagged_payload(v), v.signature),
{
}

/// A token without parent and depth is covered by a signature over any of its
/// three forms.
pub proof fn lemma_plain_token_has_three_forms(key: Seq<u8>, v: CapabilityView)
    requires
        v.parent is None,
        v.delegation_depth is None,
    ensures
        signature_covers(key, v) <==> outside::accepts(key, tagged_payload(v), v.signature)
            || outside::accepts(key, untagged_payload(v), v.signature) || outside::accepts(
            key,
            undelegated_payload(v),
            v.signature,
        ),
{
}

/// A token can be handed on exactly when it holds and can stand behind what is
/// handed on.
pub proof fn lemma_what_can_be_handed_on(parent: CapabilityView, child: CapabilityView, now: u64)
    requires
        child.workspace == parent.workspace,
    ensures
        delegation_verdict(
            child.issuer,
            parent,
            child.permissions,
            child.expires_at,
            child.delegation_depth,
            now,
        ) is Ok <==> verified(parent, now) is Ok && can_stand_behind(parent, child),
{
}

/// A token speaks for its subject in its workspace and for nobody else anywhere.
pub proof fn lemma_token_speaks_for_subject(
    v: CapabilityView,
    caller: Seq<char>,
    workspace: Seq<u8>,
    now: u64,
)
    ensures
        verified_for(v, caller, workspace, now) is Ok <==> v.subject == caller && v.workspace
            == workspace && verified(v, now) is Ok,
{
}

/// A signature counts exactly when the identifier yields a public key, the
/// signature has its full length and the key accepts it for this message.
pub proof fn lemma_signature_counts(did: Seq<char>, message: Seq<u8>, signature: Seq<u8>)
    ensures
        did_accepts(did, message, signature) is Ok <==> (did::did_key(did) matches Ok(key)
            && outside::is_public_key(key) && signature.len() == 64 && outside::accepts(
            key,
            message,
            signature,
        )),
{
}

/// An identity file yields the seed of the identity that it names, and of no
/// other, and only under a passphrase; it is to be written anew exactly when it
/// holds the seed in the clear.
pub proof fn lemma_file_yields_its_identity(stored: StoredIdentityFileView, passphrase: Seq<char>)
    ensures
        restored(stored, passphrase) matches Ok((seed, anew)) ==> {
            &&& passphrase.len() > 0
            &&& did::did_of(outside::public_key_of(seed)) == stored.did
            &&& anew <==> stored.key is None
            &&& stored.key matches Some(key) ==> stored.version == 1 && unlocked(
                key,
                stored.did,
                passphrase,
            ) == Ok::<Seq<u8>, crate::identity::IdentityStorageErrorView>(seed)
            &&& stored.key is None ==> (stored.seed_hex matches Some(hex) && (
            outside::hex_parse(encode_utf8(hex)) matches Ok(bytes) && bytes == seed && seed.len()
                == 32))
        },
        passphrase.len() == 0 ==> restored(stored, passphrase) is Err,
        stored.key is None && stored.seed_hex is None ==> restored(stored, passphrase) is Err,
{
}

/// A key is unlocked only as it was locked: under the one scheme, derivation and
/// cipher, with salt and nonce of their sizes and at least one iteration.
pub proof fn lemma_key_unlocks_as_locked(
    encrypted: EncryptedIdentityKeyView,
    did: Seq<char>,
    passphrase: Seq<char>,
)
    requires
        unlocked(encrypted, did, passphrase) is Ok,
    ensures
        passphrase.len() > 0,
        encrypted.scheme == "nexus-identity-key-v1"@,
        encrypted.kdf == "pbkdf2-sha256"@,
        encrypted.cipher == "chacha20-poly1305"@,
        encrypted.iterations > 0,
        outside::hex_parse(encode_utf8(encrypted.salt_hex)) matches Ok(salt) && salt.len() == 16,
        outside::hex_parse(encode_utf8(encrypted.nonce_hex)) matches Ok(nonce) && nonce.len() == 12,
        outside::hex_parse(encode_utf8(encrypted.ciphertext_hex)) is Ok,
        unlocked(encrypted, did, passphrase)->Ok_0.len() == 32,
{
}

/// A receipt counts exactly when its executor signed it, and an attestation when
/// its attestor did.
pub proof fn lemma_signer_is_named(r: ExecutionReceiptView, a: ExecutionAttestationView)
    ensures
        receipt_signed(r) is Ok <==> (r.signature matches Some(s) && did_accepts(
            r.executor,
            receipt_payload(r),
            s,
        ) is Ok),
        attestation_signed(a) is Ok <==> (a.signature matches Some(s) && did_accepts(
            a.attestor,
            attestation_payload(a),
            s,
        ) is Ok),
{
}

/// A receipt proves a result exactly when its executor signed it for the task,
/// executor, exit code and output of the result, and a success has the exit code
/// of one. A result without a receipt has nothing to prove.
pub proof fn lemma_receipt_proves_result(v: TaskResultView)
    ensures
        v.receipt is None ==> receipt_proves(v) is Ok,
        v.receipt matches Some(r) ==> (receipt_proves(v) is Ok <==> receipt_signed(r) is Ok
            && r.task_id == v.task_id && r.executor == v.executor && r.exit_code == v.exit_code
            && r.stdout_cid == outside::sha256_of(encode_utf8(v.stdout)) && r.stderr_cid
            == outside::sha256_of(encode_utf8(v.stderr)) && (v.success ==> v.exit_code == 0)),
{
}

/// An attestation agrees with a receipt exactly when both are signed and they name
/// the same task, executor, signature, exit code and output.
pub proof fn lemma_attestation_agrees(a: ExecutionAttestationView, r: ExecutionReceiptView)
    ensures
        attests(a, r) is Ok <==> attestation_signed(a) is Ok && receipt_signed(r) is Ok
            && a.task_id == r.task_id && a.executor == r.executor && a.receipt_signature_hex
            == receipt_mark(r) && a.exit_code == r.exit_code && a.stdout_cid == r.stdout_cid
            && a.stderr_cid == r.stderr_cid && a.output_root == r.output_root,
{
}

/// A published task is open, assigned to nobody, and says what its spec said.
pub proof fn lemma_new_task_is_open(v: TaskSpecView)
    ensures
        ({
            let t = task_of(v);
            &&& t.state == TaskState::Published
            &&& t.assigned_to is None
            &&& t.id == spec_id(v)
            &&& v.id.len() > 0 ==> t.id == v.id
            &&& t.publisher == v.publisher
            &&& t.description == v.description
            &&& t.required_capability == v.required_capability
            &&& t.command == v.command
            &&& t.args == v.args
            &&& t.max_budget == v.max_budget
            &&& t.deadline == v.deadline
            &&& t.created_at == v.created_at
        }),
{
}

/// An event counts exactly when its identifier is the hash of its content, its
/// author signed that content, and what it claims is the author's to claim.
#[verifier::spinoff_prover]
#[verifier::rlimit(40)]
pub proof fn lemma_event_counts(v: SocialEventView)
    ensures
        event_valid(v) is Ok <==> v.id == content_hash(event_content(v)) && (v.signature matches Some(
            s,
        ) && did_accepts(v.author, event_content(v), s) is Ok) && claims_own(v.author, v.kind)
            is Ok,
{
}

/// Evidence counts exactly when it shows two events that count, by the one author
/// and for the one position that it names, under two identifiers.
#[verifier::spinoff_prover]
#[verifier::rlimit(40)]
pub proof fn lemma_evidence_counts(v: EquivocationProofView)
    ensures
        equivocates(v) is Ok <==> event_valid(*v.event_a) is Ok && event_valid(*v.event_b) is Ok
            && v.event_a.author == v.author && v.event_b.author == v.author && v.event_a.seq
            == v.seq && v.event_b.seq == v.seq && v.event_a.id != v.event_b.id,
{
}

proof fn lemma_speaks_for_all(event: Seq<char>, author: Seq<char>, subjects: Seq<Seq<char>>)
    ensures
        speaks_for_all(event, author, subjects) is Ok <==> forall|i: int|
            0 <= i < subjects.len() ==> #[trigger] subjects[i] == author,
    decreases subjects.len(),
{
    if subjects.len() > 0 {
        let front = subjects.drop_last();
        lemma_speaks_for_all(event, author, front);
        if speaks_for_all(event, author, subjects) is Ok {
            assert forall|i: int| 0 <= i < subjects.len() implies #[trigger] subjects[i]
                == author by {
                if i < front.len() {
                    assert(front[i] == subjects[i]);
                }
            }
        }
        if forall|i: int| 0 <= i < subjects.len() ==> #[trigger] subjects[i] == author {
            assert forall|i: int| 0 <= i < front.len() implies #[trigger] front[i] == author by {
                assert(front[i] == subjects[i]);
            }
            assert(subjects[subjects.len() - 1] == author);
        }
    }
}

/// An author speaks for themselves: about identity, relations and work an event
/// claims only what its author is, did or decided.
#[verifier::spinoff_prover]
#[verifier::rlimit(40)]
pub proof fn lemma_author_speaks_for_themselves(author: Seq<char>, kind: SocialEventKindView)
    ensures
        match kind {
            SocialEventKindView::EquivocationObserved { evidence } => claims_own(author, kind) is Ok
                <==> equivocates(*evidence) is Ok,
            SocialEventKindView::ManifestPublished { manifest } => claims_own(author, kind) is Ok
                <==> manifest.did == author,
            SocialEventKindView::IdentityRevoked { revocation } => claims_own(author, kind) is Ok
                <==> revocation.did == author,
            SocialEventKindView::IdentityRotated { rotation } => claims_own(author, kind) is Ok
                <==> rotation.previous == author,
            SocialEventKindView::IdentityRecoveryPolicy { policy } => claims_own(author, kind) is Ok
                <==> policy.identity == author,
            SocialEventKindView::IdentityRecoveryApproved { approval } => claims_own(author, kind)
                is Ok <==> approval.guardian == author,
            SocialEventKindView::WorkspaceJoined { .. } => claims_own(author, kind) is Ok,
            SocialEventKindView::WorkspaceOwnershipClaimed { claim } => claims_own(author, kind)
                is Ok <==> claim.owner == author,
            SocialEventKindView::WorkspaceOwnershipTransferred { claim } => claims_own(
                author,
                kind,
            ) is Ok <==> (claim.previous_owner matches Some(previous) ==> previous == author),
            SocialEventKindView::RelationDeclared { .. } => claims_own(author, kind) is Ok,
            SocialEventKindView::InteractionRecorded { interaction } => claims_own(author, kind)
                is Ok <==> interaction.from == author,
            SocialEventKindView::CollectiveDeclared { members, .. } => claims_own(author, kind)
                is Ok <==> forall|i: int|
                0 <= i < members.len() ==> #[trigger] members[i] == author,
            SocialEventKindView::CollectiveJoined { .. } => claims_own(author, kind) is Ok,
            SocialEventKindView::CollectiveWorkspaceAttached { .. } => claims_own(author, kind)
                is Ok,
            SocialEventKindView::CollectiveProposalPublished { proposal } => claims_own(
                author,
                kind,
            ) is Ok <==> proposal.proposer == author,
            SocialEventKindView::CollectiveVoteCast { vote } => claims_own(author, kind) is Ok
                <==> vote.voter == author,
            SocialEventKindView::CollectiveDecisionRecorded { decision } => claims_own(author, kind)
                is Ok <==> decision.decider == author && (decision.anchor matches Some(anchor)
                ==> anchor_valid(anchor) is Ok),
            SocialEventKindView::CapabilityIssued { grant } => claims_own(author, kind) is Ok
                <==> grant.capability.issuer == author && verified(
                grant.capability,
                grant.issued_at,
            ) is Ok,
            SocialEventKindView::CapabilityRevoked { revocation } => claims_own(author, kind) is Ok
                <==> revocation.issuer == author,
            SocialEventKindView::WorkspaceSnapshotted { snapshot } => claims_own(author, kind) is Ok
                <==> snapshot.actor == author,
            SocialEventKindView::WorkspaceRunRecorded { run } => claims_own(author, kind) is Ok
                <==> run.actor == author,
            SocialEventKindView::IntentPublished { intent } => claims_own(author, kind) is Ok
                <==> intent.author == author,
            SocialEventKindView::IntentResponded { response } => claims_own(author, kind) is Ok
                <==> response.responder == author,
            SocialEventKindView::TaskPublished { task } => claims_own(author, kind) is Ok
                <==> task.publisher == author,
            SocialEventKindView::TaskOffered { offer } => claims_own(author, kind) is Ok
                <==> offer.bidder == author,
            SocialEventKindView::TaskAccepted { acceptance } => claims_own(author, kind) is Ok
                <==> acceptance.publisher == author,
            SocialEventKindView::TaskCancelled { cancellation } => claims_own(author, kind) is Ok
                <==> cancellation.publisher == author,
            SocialEventKindView::TaskCompleted { result } => claims_own(author, kind) is Ok
                <==> result.executor == author && receipt_proves(result) is Ok,
            SocialEventKindView::TaskExecutionAttested { attestation } => claims_own(author, kind)
                is Ok <==> attestation.attestor == author && attestation_signed(attestation) is Ok,
            SocialEventKindView::TaskDisputed { dispute } => claims_own(author, kind) is Ok
                <==> dispute.disputer == author,
            SocialEventKindView::SettlementRecorded { settlement } => claims_own(author, kind) is Ok
                <==> settlement.payer == author && settlement_valid(settlement) is Ok,
        },
{
    if let SocialEventKindView::CollectiveDeclared { members, .. } = kind {
        lemma_speaks_for_all("collective membership"@, author, members);
    }
}

/// What an executor signs tells all of the receipt: the task, who ran it and
/// where, the command and its arguments, how it ended, what came out, what it
/// used, and when.
pub proof fn lemma_receipt_says_all(v: ExecutionReceiptView) -> (fields: Seq<(Seq<char>, WireView)>)
    ensures
        receipt_payload(v) == wire::json(WireView::Record(fields)),
        fields.len() == 12,
        fields.contains(("task_id"@, String::wire(v.task_id))),
        fields.contains(("executor"@, Did::wire(v.executor))),
        fields.contains(("workspace"@, <Option<WorkspaceId> as Encode>::wire(v.workspace))),
        fields.contains(("command"@, String::wire(v.command))),
        fields.contains(("args"@, <Vec<String> as Encode>::wire(v.args))),
        fields.contains(("exit_code"@, i32::wire(v.exit_code))),
        fields.contains(("stdout_cid"@, Cid::wire(v.stdout_cid))),
        fields.contains(("stderr_cid"@, Cid::wire(v.stderr_cid))),
        fields.contains(("output_root"@, <Option<Cid> as Encode>::wire(v.output_root))),
        fields.contains(("resources"@, ResourceUsage::wire(v.resources))),
        fields.contains(("started_at"@, u64::wire(v.started_at))),
        fields.contains(("finished_at"@, u64::wire(v.finished_at))),
{
    let fields = Seq::<(Seq<char>, WireView)>::empty()
        .push(("task_id"@, String::wire(v.task_id)))
        .push(("executor"@, Did::wire(v.executor)))
        .push(("workspace"@, <Option<WorkspaceId> as Encode>::wire(v.workspace)))
        .push(("command"@, String::wire(v.command)))
        .push(("args"@, <Vec<String> as Encode>::wire(v.args)))
        .push(("exit_code"@, i32::wire(v.exit_code)))
        .push(("stdout_cid"@, Cid::wire(v.stdout_cid)))
        .push(("stderr_cid"@, Cid::wire(v.stderr_cid)))
        .push(("output_root"@, <Option<Cid> as Encode>::wire(v.output_root)))
        .push(("resources"@, ResourceUsage::wire(v.resources)))
        .push(("started_at"@, u64::wire(v.started_at)))
        .push(("finished_at"@, u64::wire(v.finished_at)));
    assert(fields[0] == ("task_id"@, String::wire(v.task_id)));
    assert(fields[1] == ("executor"@, Did::wire(v.executor)));
    assert(fields[2] == ("workspace"@, <Option<WorkspaceId> as Encode>::wire(v.workspace)));
    assert(fields[3] == ("command"@, String::wire(v.command)));
    assert(fields[4] == ("args"@, <Vec<String> as Encode>::wire(v.args)));
    assert(fields[5] == ("exit_code"@, i32::wire(v.exit_code)));
    assert(fields[6] == ("stdout_cid"@, Cid::wire(v.stdout_cid)));
    assert(fields[7] == ("stderr_cid"@, Cid::wire(v.stderr_cid)));
    assert(fields[8] == ("output_root"@, <Option<Cid> as Encode>::wire(v.output_root)));
    assert(fields[9] == ("resources"@, ResourceUsage::wire(v.resources)));
    assert(fields[10] == ("started_at"@, u64::wire(v.started_at)));
    assert(fields[11] == ("finished_at"@, u64::wire(v.finished_at)));
    fields
}

/// What an attestor signs tells all of the attestation: the task, who ran it
/// and who watched, the receipt, how it ended, what came out, and when.
pub proof fn lemma_attestation_says_all(v: ExecutionAttestationView) -> (fields: Seq<(Seq<char>, WireView)>)
    ensures
        attestation_payload(v) == wire::json(WireView::Record(fields)),
        fields.len() == 9,
        fields.contains(("task_id"@, String::wire(v.task_id))),
        fields.contains(("executor"@, Did::wire(v.executor))),
        fields.contains(("attestor"@, Did::wire(v.attestor))),
        fields.contains(("receipt_signature_hex"@, String::wire(v.receipt_signature_hex))),
        fields.contains(("exit_code"@, i32::wire(v.exit_code))),
        fields.contains(("stdout_cid"@, Cid::wire(v.stdout_cid))),
        fields.contains(("stderr_cid"@, Cid::wire(v.stderr_cid))),
        fields.contains(("output_root"@, <Option<Cid> as Encode>::wire(v.output_root))),
        fields.contains(("observed_at"@, u64::wire(v.observed_at))),
{
    let fields = Seq::<(Seq<char>, WireView)>::empty()
        .push(("task_id"@, String::wire(v.task_id)))
        .push(("executor"@, Did::wire(v.executor)))
        .push(("attestor"@, Did::wire(v.attestor)))
        .push(("receipt_signature_hex"@, String::wire(v.receipt_signature_hex)))
        .push(("exit_code"@, i32::wire(v.exit_code)))
        .push(("stdout_cid"@, Cid::wire(v.stdout_cid)))
        .push(("stderr_cid"@, Cid::wire(v.stderr_cid)))
        .push(("output_root"@, <Option<Cid> as Encode>::wire(v.output_root)))
        .push(("observed_at"@, u64::wire(v.observed_at)));
    assert(fields[0] == ("task_id"@, String::wire(v.task_id)));
    assert(fields[1] == ("executor"@, Did::wire(v.executor)));
    assert(fields[2] == ("attestor"@, Did::wire(v.attestor)));
    assert(fields[3] == ("receipt_signature_hex"@, String::wire(v.receipt_signature_hex)));
    assert(fields[4] == ("exit_code"@, i32::wire(v.exit_code)));
    assert(fields[5] == ("stdout_cid"@, Cid::wire(v.stdout_cid)));
    assert(fields[6] == ("stderr_cid"@, Cid::wire(v.stderr_cid)));
    assert(fields[7] == ("output_root"@, <Option<Cid> as Encode>::wire(v.output_root)));
    assert(fields[8] == ("observed_at"@, u64::wire(v.observed_at)));
    fields
}

/// What an author signs tells all of the event but identifier and signature.
pub proof fn lemma_event_says_all(v: SocialEventView) -> (fields: Seq<(Seq<char>, WireView)>)
    ensures
        event_content(v) == wire::json(WireView::Record(fields)),
        fields.len() == 5,
        fields.contains(("author"@, Did::wire(v.author))),
        fields.contains(("seq"@, u64::wire(v.seq))),
        fields.contains(("prev"@, <Option<String> as Encode>::wire(v.prev))),
        fields.contains(("timestamp"@, u64::wire(v.timestamp))),
        fields.contains(("kind"@, kind_wire(v.kind))),
{
    let fields = Seq::<(Seq<char>, WireView)>::empty()
        .push(("author"@, Did::wire(v.author)))
        .push(("seq"@, u64::wire(v.seq)))
        .push(("prev"@, <Option<String> as Encode>::wire(v.prev)))
        .push(("timestamp"@, u64::wire(v.timestamp)))
        .push(("kind"@, kind_wire(v.kind)));
    assert(fields[0] == ("author"@, Did::wire(v.author)));
    assert(fields[1] == ("seq"@, u64::wire(v.seq)));
    assert(fields[2] == ("prev"@, <Option<String> as Encode>::wire(v.prev)));
    assert(fields[3] == ("timestamp"@, u64::wire(v.timestamp)));
    assert(fields[4] == ("kind"@, kind_wire(v.kind)));
    fields
}

/// What an author signed before chains tells who said what and when.
pub proof fn lemma_old_event_says_all(author: Seq<char>, timestamp: u64, kind: SocialEventKindView) -> (fields: Seq<(Seq<char>, WireView)>)
    ensures
        legacy_content(author, timestamp, kind) == wire::json(WireView::Record(fields)),
        fields.len() == 3,
        fields.contains(("author"@, Did::wire(author))),
        fields.contains(("timestamp"@, u64::wire(timestamp))),
        fields.contains(("kind"@, kind_wire(kind))),
{
    let fields = Seq::<(Seq<char>, WireView)>::empty()
        .push(("author"@, Did::wire(author)))
        .push(("timestamp"@, u64::wire(timestamp)))
        .push(("kind"@, kind_wire(kind)));
    assert(fields[0] == ("author"@, Did::wire(author)));
    assert(fields[1] == ("timestamp"@, u64::wire(timestamp)));
    assert(fields[2] == ("kind"@, kind_wire(kind)));
    fields
}

/// What the counterparty of a settlement signs tells the transaction, the
/// amount and both parties.
pub proof fn lemma_terms_say_all(ledger_tx_id: Seq<char>, amount: u64, payer: Seq<char>, payee: Seq<char>) -> (fields: Seq<(Seq<char>, WireView)>)
    ensures
        terms_payload(ledger_tx_id, amount, payer, payee) == wire::json(WireView::Record(fields)),
        fields.len() == 5,
        fields.contains(("domain"@, WireView::Text("nexus:mutual-credit-settlement:v1"@))),
        fields.contains(("ledger_tx_id"@, WireView::Text(ledger_tx_id))),
        fields.contains(("amount"@, u64::wire(amount))),
        fields.contains(("payer"@, Did::wire(payer))),
        fields.contains(("payee"@, Did::wire(payee))),
{
    let fields = Seq::<(Seq<char>, WireView)>::empty()
        .push(("domain"@, WireView::Text("nexus:mutual-credit-settlement:v1"@)))
        .push(("ledger_tx_id"@, WireView::Text(ledger_tx_id)))
        .push(("amount"@, u64::wire(amount)))
        .push(("payer"@, Did::wire(payer)))
        .push(("payee"@, Did::wire(payee)));
    assert(fields[0] == ("domain"@, WireView::Text("nexus:mutual-credit-settlement:v1"@)));
    assert(fields[1] == ("ledger_tx_id"@, WireView::Text(ledger_tx_id)));
    assert(fields[2] == ("amount"@, u64::wire(amount)));
    assert(fields[3] == ("payer"@, Did::wire(payer)));
    assert(fields[4] == ("payee"@, Did::wire(payee)));
    fields
}

/// What the issuer of a plain token signs tells both parties, the workspace,
/// what may be done and until when.
pub proof fn lemma_plain_token_says_all(v: CapabilityView) -> (fields: Seq<(Seq<char>, WireView)>)
    ensures
        undelegated_payload(v) == wire::cbor(WireView::Record(fields)),
        fields.len() == 5,
        fields.contains(("issuer"@, Did::wire(v.issuer))),
        fields.contains(("subject"@, Did::wire(v.subject))),
        fields.contains(("workspace"@, WorkspaceId::wire(v.workspace))),
        fields.contains(("permissions"@, PermissionSet::wire(v.permissions))),
        fields.contains(("expires_at"@, u64::wire(v.expires_at))),
{
    let fields = Seq::<(Seq<char>, WireView)>::empty()
        .push(("issuer"@, Did::wire(v.issuer)))
        .push(("subject"@, Did::wire(v.subject)))
        .push(("workspace"@, WorkspaceId::wire(v.workspace)))
        .push(("permissions"@, PermissionSet::wire(v.permissions)))
        .push(("expires_at"@, u64::wire(v.expires_at)));
    assert(fields[0] == ("issuer"@, Did::wire(v.issuer)));
    assert(fields[1] == ("subject"@, Did::wire(v.subject)));
    assert(fields[2] == ("workspace"@, WorkspaceId::wire(v.workspace)));
    assert(fields[3] == ("permissions"@, PermissionSet::wire(v.permissions)));
    assert(fields[4] == ("expires_at"@, u64::wire(v.expires_at)));
    fields
}

/// What the issuer of a token signs tells, beside that, the whole token that it was
/// delegated from and how far it may be delegated; and it is marked as a token.
pub proof fn lemma_token_says_all(v: CapabilityView) -> (fields: Seq<(Seq<char>, WireView)>)
    ensures
        untagged_payload(v) == wire::cbor(WireView::Record(fields)),
        tagged_payload(v) == wire::cbor(
            WireView::Record(
                seq![
                    ("domain"@, WireView::Text("nexus:capability:v2"@)),
                    ("payload"@, WireView::Record(fields)),
                ],
            ),
        ),
        fields.len() == 7,
        fields.contains(("issuer"@, Did::wire(v.issuer))),
        fields.contains(("subject"@, Did::wire(v.subject))),
        fields.contains(("workspace"@, WorkspaceId::wire(v.workspace))),
        fields.contains(("permissions"@, PermissionSet::wire(v.permissions))),
        fields.contains(("expires_at"@, u64::wire(v.expires_at))),
        fields.contains(
            (
                "parent"@,
                match v.parent {
                    Some(p) => capability_wire(*p),
                    None => WireView::Null,
                },
            ),
        ),
        fields.contains(
            ("delegation_depth"@, <Option<u8> as Encode>::wire(v.delegation_depth)),
        ),
{
    let parent = match v.parent {
            Some(p) => capability_wire(*p),
            None => WireView::Null,
        };
    let fields = Seq::<(Seq<char>, WireView)>::empty()
        .push(("issuer"@, Did::wire(v.issuer)))
        .push(("subject"@, Did::wire(v.subject)))
        .push(("workspace"@, WorkspaceId::wire(v.workspace)))
        .push(("permissions"@, PermissionSet::wire(v.permissions)))
        .push(("expires_at"@, u64::wire(v.expires_at)))
        .push(("parent"@, parent))
        .push(("delegation_depth"@, <Option<u8> as Encode>::wire(v.delegation_depth)));
    assert(fields[0] == ("issuer"@, Did::wire(v.issuer)));
    assert(fields[1] == ("subject"@, Did::wire(v.subject)));
    assert(fields[2] == ("workspace"@, WorkspaceId::wire(v.workspace)));
    assert(fields[3] == ("permissions"@, PermissionSet::wire(v.permissions)));
    assert(fields[4] == ("expires_at"@, u64::wire(v.expires_at)));
    assert(fields[5] == ("parent"@, parent));
    assert(fields[6] == ("delegation_depth"@, <Option<u8> as Encode>::wire(v.delegation_depth)));
    let domain = ("domain"@, WireView::Text("nexus:capability:v2"@));
    let payload = ("payload"@, WireView::Record(fields));
    assert(Seq::<(Seq<char>, WireView)>::empty().push(domain).push(payload) =~= seq![
        domain,
        payload,
    ]);
    fields
}

/// Why a token does not hold: the first of expiry, issuer, signature, parent and
/// delegation that fails decides.
#[verifier::spinoff_prover]
#[verifier::rlimit(40)]
pub proof fn lemma_why_token_fails(v: CapabilityView, now: u64)
    ensures
        v.expires_at <= now ==> verified(v, now) == Err::<(), SigningErrorView>(
            SigningErrorView::Expired { expires_at: v.expires_at, now },
        ),
        now < v.expires_at ==> (did::did_key(v.issuer) matches Err(e) ==> verified(v, now)
            == Err::<(), SigningErrorView>(SigningErrorView::DidParse(e))),
        now < v.expires_at ==> (did::did_key(v.issuer) matches Ok(key) ==> {
            let signed = outside::is_public_key(key) && v.signature.len() == 64
                && signature_covers(key, v);
            &&& !signed ==> verified(v, now) == Err::<(), SigningErrorView>(
                SigningErrorView::InvalidSignature,
            )
            &&& signed ==> (v.parent matches Some(p) ==> {
                &&& verified(*p, now) is Err ==> verified(v, now) == verified(*p, now)
                &&& verified(*p, now) is Ok && p.subject != v.issuer ==> verified(v, now) == Err::<
                    (),
                    SigningErrorView,
                >(
                    SigningErrorView::DelegationIssuerMismatch {
                        issuer: v.issuer,
                        parent_subject: p.subject,
                    },
                )
                &&& verified(*p, now) is Ok && p.subject == v.issuer && p.workspace != v.workspace
                    ==> verified(v, now) == Err::<(), SigningErrorView>(
                    SigningErrorView::WorkspaceMismatch {
                        expected: p.workspace,
                        actual: v.workspace,
                    },
                )
                &&& verified(*p, now) is Ok && p.subject == v.issuer && p.workspace == v.workspace
                    && v.expires_at > p.expires_at ==> verified(v, now) == Err::<
                    (),
                    SigningErrorView,
                >(
                    SigningErrorView::DelegationExpiryExceedsParent {
                        child_expires_at: v.expires_at,
                        parent_expires_at: p.expires_at,
                    },
                )
                &&& verified(*p, now) is Ok && p.subject == v.issuer && p.workspace == v.workspace
                    && v.expires_at <= p.expires_at && !no_more_than(v.permissions, p.permissions)
                    ==> verified(v, now) == Err::<(), SigningErrorView>(
                    SigningErrorView::DelegationPermissionsExceedParent,
                )
            })
        }),
{
}

/// Why a signature does not count: its length first, then the identifier, then the
/// key, then the signature itself.
pub proof fn lemma_why_signature_fails(did: Seq<char>, message: Seq<u8>, signature: Seq<u8>)
    ensures
        signature.len() != 64 ==> did_accepts(did, message, signature) == Err::<
            (),
            IdentitySignatureErrorView,
        >(IdentitySignatureErrorView::InvalidSignatureBytes),
        signature.len() == 64 ==> (did::did_key(did) matches Err(e) ==> did_accepts(
            did,
            message,
            signature,
        ) == Err::<(), IdentitySignatureErrorView>(IdentitySignatureErrorView::InvalidDid(e))),
        signature.len() == 64 ==> (did::did_key(did) matches Ok(key) ==> {
            &&& !outside::is_public_key(key) ==> did_accepts(did, message, signature) == Err::<
                (),
                IdentitySignatureErrorView,
            >(IdentitySignatureErrorView::InvalidVerifyingKey)
            &&& outside::is_public_key(key) && !outside::accepts(key, message, signature)
                ==> did_accepts(did, message, signature) == Err::<(), IdentitySignatureErrorView>(
                IdentitySignatureErrorView::VerificationFailed,
            )
        }),
{
}

} // verus!
