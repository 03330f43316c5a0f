//! Capability tokens: signing, delegation and verification.
//!
//! A capability is a signed bearer token: the issuer grants the subject
//! permissions on a workspace until a point in time. The signature covers the
//! CBOR form of the other fields behind a domain tag.
use crate::did::{self, DidError, DidErrorView};
use crate::identity::{self, NodeIdentity};
use crate::outside;
use crate::table::Key;
use crate::text;
use crate::twin::{lemma_bytes_view, outcome, Twin};
use crate::types::{
    capability_wire, Capability, CapabilityView, Did, NexusError, NexusResult, PermissionSet,
    WorkspaceId,
};
use crate::wire::{self, text_wire, Encode, Fields, Wire, WireView};
use vstd::prelude::*;
use vstd::string::*;

verus! {

broadcast use lemma_bytes_view;

/// Why a capability is refused.
#[derive(Debug, PartialEq, Eq)]
pub enum SigningError {
    /// The canonical form could not be written.
    Serialisation(String),
    InvalidSignature,
    Expired { expires_at: u64, now: u64 },
    SubjectMismatch { expected: Did, actual: Did },
    WorkspaceMismatch { expected: WorkspaceId, actual: WorkspaceId },
    DelegationIssuerMismatch { issuer: Did, parent_subject: Did },
    DelegationPermissionsExceedParent,
    DelegationExpiryExceedsParent { child_expires_at: u64, parent_expires_at: u64 },
    DelegationDepthExceeded,
    DidParse(DidError),
}

/// The mathematical form of [`SigningError`].
pub enum SigningErrorView {
    Serialisation(Seq<char>),
    InvalidSignature,
    Expired { expires_at: u64, now: u64 },
    SubjectMismatch { expected: Seq<char>, actual: Seq<char> },
    WorkspaceMismatch { expected: Seq<u8>, actual: Seq<u8> },
    DelegationIssuerMismatch { issuer: Seq<char>, parent_subject: Seq<char> },
    DelegationPermissionsExceedParent,
    DelegationExpiryExceedsParent { child_expires_at: u64, parent_expires_at: u64 },
    DelegationDepthExceeded,
    DidParse(DidErrorView),
}

impl DeepView for SigningError {
    type V = SigningErrorView;

    open spec fn deep_view(&self) -> SigningErrorView {
        match self {
            SigningError::Serialisation(a0) => SigningErrorView::Serialisation(a0.deep_view()),
            SigningError::InvalidSignature => SigningErrorView::InvalidSignature,
            SigningError::Expired { expires_at, now } => SigningErrorView::Expired {
                expires_at: expires_at.deep_view(),
                now: now.deep_view(),
            },
            SigningError::SubjectMismatch { expected, actual } => SigningErrorView::SubjectMismatch {
                expected: expected.deep_view(),
                actual: actual.deep_view(),
            },
            SigningError::WorkspaceMismatch { expected, actual } => SigningErrorView::WorkspaceMismatch {
                expected: expected.deep_view(),
                actual: actual.deep_view(),
            },
            SigningError::DelegationIssuerMismatch { issuer, parent_subject } => SigningErrorView::DelegationIssuerMismatch {
                issuer: issuer.deep_view(),
                parent_subject: parent_subject.deep_view(),
            },
            SigningError::DelegationPermissionsExceedParent => SigningErrorView::DelegationPermissionsExceedParent,
            SigningError::DelegationExpiryExceedsParent { child_expires_at, parent_expires_at } => SigningErrorView::DelegationExpiryExceedsParent {
                child_expires_at: child_expires_at.deep_view(),
                parent_expires_at: parent_expires_at.deep_view(),
            },
            SigningError::DelegationDepthExceeded => SigningErrorView::DelegationDepthExceeded,
            SigningError::DidParse(a0) => SigningErrorView::DidParse(a0.deep_view()),
        }
    }
}

impl Twin for SigningError {
    fn twin(&self) -> (r: Self) {
        match self {
            SigningError::Serialisation(a0) => SigningError::Serialisation(a0.twin()),
            SigningError::InvalidSignature => SigningError::InvalidSignature,
            SigningError::Expired { expires_at, now } => SigningError::Expired {
                expires_at: expires_at.twin(),
                now: now.twin(),
            },
            SigningError::SubjectMismatch { expected, actual } => SigningError::SubjectMismatch {
                expected: expected.twin(),
                actual: actual.twin(),
            },
            SigningError::WorkspaceMismatch { expected, actual } => SigningError::WorkspaceMismatch {
                expected: expected.twin(),
                actual: actual.twin(),
            },
            SigningError::DelegationIssuerMismatch { issuer, parent_subject } => SigningError::DelegationIssuerMismatch {
                issuer: issuer.twin(),
                parent_subject: parent_subject.twin(),
            },
            SigningError::DelegationPermissionsExceedParent => SigningError::DelegationPermissionsExceedParent,
            SigningError::DelegationExpiryExceedsParent { child_expires_at, parent_expires_at } => SigningError::DelegationExpiryExceedsParent {
                child_expires_at: child_expires_at.twin(),
                parent_expires_at: parent_expires_at.twin(),
            },
            SigningError::DelegationDepthExceeded => SigningError::DelegationDepthExceeded,
            SigningError::DidParse(a0) => SigningError::DidParse(a0.twin()),
        }
    }
}

impl Clone for SigningError {
    fn clone(&self) -> (r: Self)
        ensures
            r.deep_view() == self.deep_view(),
    {
        self.twin()
    }
}

/// A payload behind a domain tag, so that a signature over one structure cannot
/// pass for a signature over another.
pub open spec fn in_domain(domain: Seq<char>, payload: WireView) -> WireView {
    WireView::Record(
        Seq::<(Seq<char>, WireView)>::empty()
            .push(("domain"@, WireView::Text(domain)))
            .push(("payload"@, payload)),
    )
}

fn domain_bytes(domain: &str, payload: Wire) -> (r: Vec<u8>)
    ensures
        r@ == wire::cbor(in_domain(domain@, payload.deep_view())),
{
    let document = Fields::new()
        .with("domain", text_wire(domain))
        .with("payload", payload)
        .done();
    wire::cbor_bytes(&document)
}

/// The CBOR bytes of a payload behind a domain tag.
pub fn domain_separated_cbor<T: Encode>(domain: &str, payload: &T) -> (r: Result<Vec<u8>, String>)
    ensures
        r matches Ok(bytes) && bytes@ == wire::cbor(
            in_domain(domain@, T::wire(payload.deep_view())),
        ),
{
    Ok(domain_bytes(domain, payload.to_wire()))
}

/// The five fields that every version of the signed form begins with.
pub open spec fn leading_fields(v: CapabilityView) -> Seq<(Seq<char>, WireView)> {
    Seq::<(Seq<char>, WireView)>::empty()
        .push(("issuer"@, Did::wire(v.issuer)))
        .push(("subject"@, Did::wire(v.subject)))
        .push(("workspace"@, WorkspaceId::wire(v.workspace)))
        .push(("permissions"@, PermissionSet::wire(v.permissions)))
        .push(("expires_at"@, u64::wire(v.expires_at)))
}

/// The unsigned fields of a capability.
pub open spec fn unsigned_fields(v: CapabilityView) -> WireView {
    WireView::Record(
        leading_fields(v).push(
            (
                "parent"@,
                match v.parent {
                    Some(p) => capability_wire(*p),
                    None => WireView::Null,
                },
            ),
        ).push(("delegation_depth"@, <Option<u8> as Encode>::wire(v.delegation_depth))),
    )
}

/// What a new capability signs.
pub open spec fn tagged_payload(v: CapabilityView) -> Seq<u8> {
    wire::cbor(in_domain("nexus:capability:v2"@, unsigned_fields(v)))
}

/// What a capability signed before domain tags.
pub open spec fn untagged_payload(v: CapabilityView) -> Seq<u8> {
    wire::cbor(unsigned_fields(v))
}

/// What a capability signed before delegation.
pub open spec fn undelegated_payload(v: CapabilityView) -> Seq<u8> {
    wire::cbor(WireView::Record(leading_fields(v)))
}

/// Whether a signature covers a capability in one of its signed forms. The
/// oldest form is only open to tokens without parent and depth.
pub open spec fn signature_covers(key: Seq<u8>, v: CapabilityView) -> bool {
    ||| outside::accepts(key, tagged_payload(v), v.signature)
    ||| outside::accepts(key, untagged_payload(v), v.signature)
    ||| (v.parent is None && v.delegation_depth is None && outside::accepts(
        key,
        undelegated_payload(v),
        v.signature,
    ))
}

/// Whether each permission of a child is held by the parent.
pub open spec fn permissions_within(child: PermissionSet, parent: PermissionSet) -> bool {
    &&& child.read ==> parent.may_read()
    &&& child.write ==> parent.may_write()
    &&& child.execute ==> parent.may_exec()
    &&& child.admin ==> parent.admin
}

/// Whether a grant stays within its parent.
pub open spec fn within_parent(
    issuer: Seq<char>,
    workspace: Seq<u8>,
    permissions: PermissionSet,
    expires_at: u64,
    parent: CapabilityView,
) -> Result<(), SigningErrorView> {
    if parent.subject != issuer {
        Err(
            SigningErrorView::DelegationIssuerMismatch {
                issuer,
                parent_subject: parent.subject,
            },
        )
    } else if parent.workspace != workspace {
        Err(SigningErrorView::WorkspaceMismatch { expected: parent.workspace, actual: workspace })
    } else if expires_at > parent.expires_at {
        Err(
            SigningErrorView::DelegationExpiryExceedsParent {
                child_expires_at: expires_at,
                parent_expires_at: parent.expires_at,
            },
        )
    } else if !permissions_within(permissions, parent.permissions) {
        Err(SigningErrorView::DelegationPermissionsExceedParent)
    } else {
        Ok(())
    }
}

/// Whether a parent leaves room for a child of the given depth.
pub open spec fn depth_allows(parent: Option<u8>, child: Option<u8>) -> bool {
    parent matches Some(p) && p > 0 && (match child {
        Some(c) => c,
        None => 0,
    }) < p
}

/// Whether a capability holds at a time, with every parent in its chain.
pub open spec fn verified(v: CapabilityView, now: u64) -> Result<(), SigningErrorView>
    decreases v,
{
    if v.expires_at <= now {
        Err(SigningErrorView::Expired { expires_at: v.expires_at, now })
    } else {
        match did::did_key(v.issuer) {
            Err(e) => Err(SigningErrorView::DidParse(e)),
            Ok(key) => if !outside::is_public_key(key) || v.signature.len() != 64
                || !signature_covers(key, v) {
                Err(SigningErrorView::InvalidSignature)
            } else {
                match v.parent {
                    None => Ok(()),
                    Some(parent) => match verified(*parent, now) {
                        Err(e) => Err(e),
                        Ok(_) => match within_parent(
                            v.issuer,
                            v.workspace,
                            v.permissions,
                            v.expires_at,
                            *parent,
                        ) {
                            Err(e) => Err(e),
                            Ok(_) => if depth_allows(parent.delegation_depth, v.delegation_depth) {
                                Ok(())
                            } else {
                                Err(SigningErrorView::DelegationDepthExceeded)
                            },
                        },
                    },
                }
            },
        }
    }
}

/// The capability `k` steps up the chain.
pub open spec fn ancestor(v: CapabilityView, k: nat) -> Option<CapabilityView>
    decreases k,
{
    if k == 0 {
        Some(v)
    } else {
        match v.parent {
            Some(p) => ancestor(*p, (k - 1) as nat),
            None => None,
        }
    }
}

/// A verified capability never exceeds any capability above it in its chain:
/// each of them is itself verified, concerns the same workspace, lasts at least
/// as long, allows everything that is allowed below, and had enough delegation
/// depth left for every step taken.
pub proof fn lemma_chain_bounded(v: CapabilityView, now: u64, k: nat)
    requires
        verified(v, now) is Ok,
        ancestor(v, k) is Some,
    ensures
        ({
            let a = ancestor(v, k)->0;
            &&& verified(a, now) is Ok
            &&& a.workspace == v.workspace
            &&& v.expires_at <= a.expires_at
            &&& v.permissions.may_read() ==> a.permissions.may_read()
            &&& v.permissions.may_write() ==> a.permissions.may_write()
            &&& v.permissions.may_exec() ==> a.permissions.may_exec()
            &&& v.permissions.admin ==> a.permissions.admin
            &&& k > 0 ==> (a.delegation_depth matches Some(d) && d >= k)
            &&& (v.delegation_depth matches Some(c) ==> k > 0 ==> (a.delegation_depth matches Some(
                d,
            ) && d >= c + k))
        }),
    decreases k,
{
    if k > 0 {
        let p = *v.parent->0;
        lemma_chain_bounded(p, now, (k - 1) as nat);
    }
}

/// Every delegation is issued by the holder of the grant above it.
pub proof fn lemma_chain_linked(v: CapabilityView, now: u64)
    requires
        verified(v, now) is Ok,
    ensures
        v.parent matches Some(p) ==> p.subject == v.issuer,
{
}

fn leading_wire(cap: &Capability) -> (r: Fields)
    ensures
        r@ == leading_fields(cap.deep_view()),
{
    Fields::new()
        .with("issuer", cap.issuer.to_wire())
        .with("subject", cap.subject.to_wire())
        .with("workspace", cap.workspace.to_wire())
        .with("permissions", cap.permissions.to_wire())
        .with("expires_at", cap.expires_at.to_wire())
}

fn unsigned_wire(cap: &Capability) -> (r: Wire)
    ensures
        r.deep_view() == unsigned_fields(cap.deep_view()),
{
    let parent = match &cap.parent {
        Some(p) => (**p).to_wire(),
        None => Wire::Null,
    };
    leading_wire(cap)
        .with("parent", parent)
        .with("delegation_depth", cap.delegation_depth.to_wire())
        .done()
}

/// The bytes that a new capability signs.
pub fn signing_payload(cap: &Capability) -> (r: Vec<u8>)
    ensures
        r@ == tagged_payload(cap.deep_view()),
{
    domain_bytes("nexus:capability:v2", unsigned_wire(cap))
}

/// The bytes that a capability signed before domain tags.
pub fn canonical_encode(cap: &Capability) -> (r: Vec<u8>)
    ensures
        r@ == untagged_payload(cap.deep_view()),
{
    wire::cbor_bytes(&unsigned_wire(cap))
}

/// The bytes that a capability signed before delegation.
pub fn canonical_encode_legacy(cap: &Capability) -> (r: Vec<u8>)
    ensures
        r@ == undelegated_payload(cap.deep_view()),
{
    wire::cbor_bytes(&leading_wire(cap).done())
}

/// Signs the unsigned fields of a capability.
fn signed(issuer: &NodeIdentity, unsigned: Capability) -> (r: Capability)
    requires
        unsigned.deep_view().issuer == issuer.name(),
        unsigned.deep_view().signature.len() == 0,
    ensures
        r.deep_view() == (CapabilityView {
            signature: outside::signature_of(
                issuer.seed(),
                tagged_payload(unsigned.deep_view()),
            ),
            ..unsigned.deep_view()
        }),
        tagged_payload(r.deep_view()) == tagged_payload(unsigned.deep_view()),
        r.deep_view().signature.len() == 64,
        identity::did_accepts(
            r.deep_view().issuer,
            tagged_payload(r.deep_view()),
            r.deep_view().signature,
        ) is Ok,
{
    let ghost before = unsigned.deep_view();
    let payload = signing_payload(&unsigned);
    let signature = issuer.sign(payload.as_slice());
    let mut r = unsigned;
    r.signature = signature;
    r
}

/// Creates a signed capability that cannot be delegated further.
pub fn sign_capability(
    issuer: &NodeIdentity,
    subject: &Did,
    workspace: WorkspaceId,
    permissions: PermissionSet,
    expires_at: u64,
) -> (r: NexusResult<Capability>)
    ensures
        r matches Ok(cap) && issued(
            cap.deep_view(),
            issuer,
            subject.deep_view(),
            workspace.deep_view(),
            permissions,
            expires_at,
            None,
        ),
{
    match sign_capability_with_depth(issuer, subject, workspace, permissions, expires_at, None) {
        Ok(cap) => Ok(cap),
        Err(_) => Err(NexusError::Crypto(text::owned("capability could not be signed"))),
    }
}

/// A capability of the given content, signed by its issuer, that holds until it
/// expires.
pub open spec fn issued(
    cap: CapabilityView,
    issuer: &NodeIdentity,
    subject: Seq<char>,
    workspace: Seq<u8>,
    permissions: PermissionSet,
    expires_at: u64,
    delegation_depth: Option<u8>,
) -> bool {
    &&& cap.issuer == issuer.name()
    &&& cap.subject == subject
    &&& cap.workspace == workspace
    &&& cap.permissions == permissions
    &&& cap.expires_at == expires_at
    &&& cap.parent is None
    &&& cap.delegation_depth == delegation_depth
    &&& cap.signature == outside::signature_of(issuer.seed(), tagged_payload(cap))
    &&& forall|now: u64| now < expires_at ==> #[trigger] verified(cap, now) is Ok
}

/// Creates a signed capability that may be delegated to the given depth.
pub fn sign_capability_with_depth(
    issuer: &NodeIdentity,
    subject: &Did,
    workspace: WorkspaceId,
    permissions: PermissionSet,
    expires_at: u64,
    delegation_depth: Option<u8>,
) -> (r: Result<Capability, SigningError>)
    ensures
        r matches Ok(cap) && issued(
            cap.deep_view(),
            issuer,
            subject.deep_view(),
            workspace.deep_view(),
            permissions,
            expires_at,
            delegation_depth,
        ),
{
    let unsigned = Capability {
        issuer: issuer.did().twin(),
        subject: subject.twin(),
        workspace,
        permissions,
        expires_at,
        parent: None,
        delegation_depth,
        signature: Vec::new(),
    };
    Ok(signed(issuer, unsigned))
}

/// What delegation answers: the checks on the parent first, then on the grant.
pub open spec fn delegation_verdict(
    issuer: Seq<char>,
    parent: CapabilityView,
    permissions: PermissionSet,
    expires_at: u64,
    delegation_depth: Option<u8>,
    now: u64,
) -> Result<(), SigningErrorView> {
    match verified(parent, now) {
        Err(e) => Err(e),
        Ok(_) => match within_parent(issuer, parent.workspace, permissions, expires_at, parent) {
            Err(e) => Err(e),
            Ok(_) => if depth_allows(parent.delegation_depth, delegation_depth) {
                Ok(())
            } else {
                Err(SigningErrorView::DelegationDepthExceeded)
            },
        },
    }
}

/// Creates a capability delegated from a valid parent. It stays within the
/// parent's workspace, permissions, expiry and remaining depth, and holds for
/// as long as neither it nor a grant above it has expired.
pub fn delegate_capability(
    issuer: &NodeIdentity,
    parent: Capability,
    subject: &Did,
    permissions: PermissionSet,
    expires_at: u64,
    delegation_depth: Option<u8>,
    now: u64,
) -> (r: Result<Capability, SigningError>)
    ensures
        match r {
            Err(e) => delegation_verdict(
                issuer.name(),
                parent.deep_view(),
                permissions,
                expires_at,
                delegation_depth,
                now,
            ) == Err::<(), SigningErrorView>(e.deep_view()),
            Ok(cap) => {
                let c = cap.deep_view();
                &&& delegation_verdict(
                    issuer.name(),
                    parent.deep_view(),
                    permissions,
                    expires_at,
                    delegation_depth,
                    now,
                ) is Ok
                &&& c.issuer == issuer.name()
                &&& c.subject == subject.deep_view()
                &&& c.workspace == parent.deep_view().workspace
                &&& c.permissions == permissions
                &&& c.expires_at == expires_at
                &&& c.parent == Some(Box::new(parent.deep_view()))
                &&& c.delegation_depth == delegation_depth
                &&& c.signature == outside::signature_of(issuer.seed(), tagged_payload(c))
                &&& now < expires_at ==> verified(c, now) is Ok
            },
        },
{
    match verify_capability(&parent, now) {
        Err(e) => {
            return Err(e);
        },
        Ok(_) => {},
    }
    match ensure_delegation_within_parent(
        issuer.did(),
        parent.workspace,
        &permissions,
        expires_at,
        &parent,
    ) {
        Err(e) => {
            return Err(e);
        },
        Ok(_) => {},
    }
    if !depth_leaves_room(parent.delegation_depth, delegation_depth) {
        return Err(SigningError::DelegationDepthExceeded);
    }
    let unsigned = Capability {
        issuer: issuer.did().twin(),
        subject: subject.twin(),
        workspace: parent.workspace,
        permissions,
        expires_at,
        parent: Some(Box::new(parent)),
        delegation_depth,
        signature: Vec::new(),
    };
    assert(*unsigned.deep_view().parent->0 == parent.deep_view());
    Ok(signed(issuer, unsigned))
}

fn depth_leaves_room(parent: Option<u8>, child: Option<u8>) -> (r: bool)
    ensures
        r == depth_allows(parent, child),
{
    let needed: u8 = match child {
        Some(c) => c,
        None => 0,
    };
    match parent {
        Some(p) => p > 0 && needed < p,
        None => false,
    }
}

/// Verifies a capability: its expiry, its signature, and the chain above it.
pub fn verify_capability(cap: &Capability, now: u64) -> (r: Result<(), SigningError>)
    ensures
        outcome(r) == verified(cap.deep_view(), now),
    decreases cap,
{
    if cap.expires_at <= now {
        return Err(SigningError::Expired { expires_at: cap.expires_at, now });
    }
    let payload = signing_payload(cap);
    let untagged = canonical_encode(cap);
    let undelegated = if cap.parent.is_none() && cap.delegation_depth.is_none() {
        Some(canonical_encode_legacy(cap))
    } else {
        None
    };
    let key = match did::parse_did(cap.issuer.as_str()) {
        Ok(key) => key,
        Err(e) => {
            return Err(SigningError::DidParse(e));
        },
    };
    if !outside::ed25519_key_valid(&key) || cap.signature.len() != 64 {
        return Err(SigningError::InvalidSignature);
    }
    let signature = cap.signature.as_slice();
    let covered = outside::ed25519_verify(&key, payload.as_slice(), signature)
        || outside::ed25519_verify(&key, untagged.as_slice(), signature) || (match &undelegated {
        Some(bytes) => outside::ed25519_verify(&key, bytes.as_slice(), signature),
        None => false,
    });
    if !covered {
        return Err(SigningError::InvalidSignature);
    }
    match &cap.parent {
        None => Ok(()),
        Some(parent) => {
            assert(*cap.deep_view().parent->0 == (**parent).deep_view());
            match verify_capability(&**parent, now) {
                Err(e) => {
                    return Err(e);
                },
                Ok(_) => {},
            }
            match ensure_delegation_within_parent(
                &cap.issuer,
                cap.workspace,
                &cap.permissions,
                cap.expires_at,
                &**parent,
            ) {
                Err(e) => {
                    return Err(e);
                },
                Ok(_) => {},
            }
            if depth_leaves_room(parent.delegation_depth, cap.delegation_depth) {
                Ok(())
            } else {
                Err(SigningError::DelegationDepthExceeded)
            }
        },
    }
}

/// What a presented capability answers: the subject first, then the workspace,
/// then the token itself.
pub open spec fn verified_for(
    v: CapabilityView,
    caller: Seq<char>,
    workspace: Seq<u8>,
    now: u64,
) -> Result<(), SigningErrorView> {
    if v.subject != caller {
        Err(SigningErrorView::SubjectMismatch { expected: v.subject, actual: caller })
    } else if v.workspace != workspace {
        Err(SigningErrorView::WorkspaceMismatch { expected: v.workspace, actual: workspace })
    } else {
        verified(v, now)
    }
}

/// Verifies a capability that a caller presents for a workspace.
pub fn verify_capability_for_caller(
    cap: &Capability,
    caller: &Did,
    workspace: WorkspaceId,
    now: u64,
) -> (r: Result<(), SigningError>)
    ensures
        outcome(r) == verified_for(
            cap.deep_view(),
            caller.deep_view(),
            workspace.deep_view(),
            now,
        ),
{
    if !cap.subject.same(caller) {
        return Err(
            SigningError::SubjectMismatch { expected: cap.subject.twin(), actual: caller.twin() },
        );
    }
    if !cap.workspace.same(&workspace) {
        return Err(
            SigningError::WorkspaceMismatch { expected: cap.workspace, actual: workspace },
        );
    }
    verify_capability(cap, now)
}

/// Checks that a grant stays within its parent.
pub fn ensure_delegation_within_parent(
    issuer: &Did,
    workspace: WorkspaceId,
    permissions: &PermissionSet,
    expires_at: u64,
    parent: &Capability,
) -> (r: Result<(), SigningError>)
    ensures
        outcome(r) == within_parent(
            issuer.deep_view(),
            workspace.deep_view(),
            *permissions,
            expires_at,
            parent.deep_view(),
        ),
{
    if !parent.subject.same(issuer) {
        return Err(
            SigningError::DelegationIssuerMismatch {
                issuer: issuer.twin(),
                parent_subject: parent.subject.twin(),
            },
        );
    }
    if !parent.workspace.same(&workspace) {
        return Err(
            SigningError::WorkspaceMismatch { expected: parent.workspace, actual: workspace },
        );
    }
    if expires_at > parent.expires_at {
        return Err(
            SigningError::DelegationExpiryExceedsParent {
                child_expires_at: expires_at,
                parent_expires_at: parent.expires_at,
            },
        );
    }
    if !permissions_within_parent(permissions, &parent.permissions) {
        return Err(SigningError::DelegationPermissionsExceedParent);
    }
    Ok(())
}

/// Whether each permission of a child is held by the parent.
pub fn permissions_within_parent(child: &PermissionSet, parent: &PermissionSet) -> (r: bool)
    ensures
        r == permissions_within(*child, *parent),
{
    (!child.read || parent.can_read()) && (!child.write || parent.can_write()) && (!child.execute
        || parent.can_exec()) && (!child.admin || parent.is_admin())
}

} // verus!
