//! The vocabulary of the society: identities, workspaces, permissions,
//! capabilities and errors.
use crate::outside;
use crate::table::Key;
use crate::twin::{lemma_bytes_view, Twin};
use crate::wire::{push_some, some_wire, to_some_wire, Encode, Fields, Wire, WireView};
use vstd::prelude::*;
use vstd::string::*;

verus! {

broadcast use lemma_bytes_view;

/// Whether two byte strings are equal.
pub fn same_bytes(a: &[u8], b: &[u8]) -> (r: bool)
    ensures
        r == (a@ == b@),
{
    if a.len() != b.len() {
        return false;
    }
    let mut i: usize = 0;
    while i < a.len()
        invariant
            i <= a@.len(),
            a@.len() == b@.len(),
            forall|j: int| 0 <= j < i ==> a@[j] == b@[j],
        decreases a@.len() - i,
    {
        if a[i] != b[i] {
            return false;
        }
        i = i + 1;
    }
    assert(a@ =~= b@);
    true
}

/// A decentralized identifier: `did:key:` and a multibase-encoded Ed25519
/// public key.
#[derive(Debug, PartialEq, Eq, Hash)]
pub struct Did(String);

impl Did {
    /// The characters of the identifier.
    pub closed spec fn view(&self) -> Seq<char> {
        self.0@
    }

    /// An identifier with the given text.
    pub fn new(s: &str) -> (r: Self)
        ensures
            r@ == s@,
            r.deep_view() == s@,
    {
        Did(s.to_owned())
    }

    /// The text of the identifier.
    pub fn as_str(&self) -> (r: &str)
        ensures
            r@ == self@,
            r@ == self.deep_view(),
    {
        self.0.as_str()
    }

    /// The identifier as an owned text.
    pub fn to_string(&self) -> (r: String)
        ensures
            r@ == self@,
            r@ == self.deep_view(),
    {
        self.0.clone()
    }
}

impl DeepView for Did {
    type V = Seq<char>;

    open spec fn deep_view(&self) -> Seq<char> {
        self@
    }
}

impl Twin for Did {
    fn twin(&self) -> (r: Self) {
        Did(self.0.clone())
    }
}

impl Clone for Did {
    fn clone(&self) -> (r: Self)
        ensures
            r.deep_view() == self.deep_view(),
    {
        self.twin()
    }
}

impl Key for Did {
    fn same(&self, other: &Self) -> (r: bool) {
        self.0 == other.0
    }
}

impl Encode for Did {
    open spec fn wire(v: Seq<char>) -> WireView {
        WireView::Text(v)
    }

    fn to_wire(&self) -> (r: Wire) {
        Wire::Text(self.0.clone())
    }
}

/// The identifier of a workspace: the content hash of its first root.
#[derive(Clone, Copy, Debug, PartialEq, Eq, Hash)]
pub struct WorkspaceId([u8; 32]);

impl WorkspaceId {
    /// The bytes of the identifier.
    pub closed spec fn view(&self) -> Seq<u8> {
        self.0@
    }

    /// The identifier with the given bytes.
    pub fn from_bytes(bytes: [u8; 32]) -> (r: Self)
        ensures
            r@ == bytes@,
            r.deep_view() == bytes@,
    {
        WorkspaceId(bytes)
    }

    /// The bytes of the identifier.
    pub fn as_bytes(&self) -> (r: &[u8; 32])
        ensures
            r@ == self@,
            r@ == self.deep_view(),
    {
        &self.0
    }

    /// The identifier in hexadecimal.
    pub fn to_string(&self) -> (r: String)
        ensures
            r@ == outside::hex_text(self@),
            r@ == outside::hex_text(self.deep_view()),
    {
        outside::hex_encode(self.0.as_slice())
    }
}

impl DeepView for WorkspaceId {
    type V = Seq<u8>;

    open spec fn deep_view(&self) -> Seq<u8> {
        self@
    }
}

impl Twin for WorkspaceId {
    fn twin(&self) -> (r: Self) {
        WorkspaceId(self.0)
    }
}

impl Key for WorkspaceId {
    fn same(&self, other: &Self) -> (r: bool) {
        same_bytes(self.0.as_slice(), other.0.as_slice())
    }
}

impl Encode for WorkspaceId {
    open spec fn wire(v: Seq<u8>) -> WireView {
        crate::wire::bytes_wire(v)
    }

    fn to_wire(&self) -> (r: Wire) {
        crate::wire::to_bytes_wire(self.0.as_slice())
    }
}

/// A content identifier: the SHA-256 digest of the content.
#[derive(Clone, Copy, Debug, PartialEq, Eq, Hash)]
pub struct Cid([u8; 32]);

impl Cid {
    /// The digest.
    pub closed spec fn view(&self) -> Seq<u8> {
        self.0@
    }

    /// The identifier of a content.
    pub fn hash_of(content: &[u8]) -> (r: Self)
        ensures
            r@ == outside::sha256_of(content@),
            r.deep_view() == outside::sha256_of(content@),
    {
        Cid(outside::sha256(content))
    }

    /// The identifier with the given digest.
    pub fn from_bytes(bytes: [u8; 32]) -> (r: Self)
        ensures
            r@ == bytes@,
            r.deep_view() == bytes@,
    {
        Cid(bytes)
    }

    /// The digest.
    pub fn as_bytes(&self) -> (r: &[u8; 32])
        ensures
            r@ == self@,
            r@ == self.deep_view(),
    {
        &self.0
    }

    /// The identifier in hexadecimal.
    pub fn to_string(&self) -> (r: String)
        ensures
            r@ == outside::hex_text(self@),
            r@ == outside::hex_text(self.deep_view()),
    {
        outside::hex_encode(self.0.as_slice())
    }
}

impl DeepView for Cid {
    type V = Seq<u8>;

    open spec fn deep_view(&self) -> Seq<u8> {
        self@
    }
}

impl Twin for Cid {
    fn twin(&self) -> (r: Self) {
        Cid(self.0)
    }
}

impl Key for Cid {
    fn same(&self, other: &Self) -> (r: bool) {
        same_bytes(self.0.as_slice(), other.0.as_slice())
    }
}

impl Encode for Cid {
    open spec fn wire(v: Seq<u8>) -> WireView {
        crate::wire::bytes_wire(v)
    }

    fn to_wire(&self) -> (r: Wire) {
        crate::wire::to_bytes_wire(self.0.as_slice())
    }
}

/// Errors shared across the stack.
#[derive(Debug, PartialEq, Eq)]
pub enum NexusError {
    Crypto(String),
    Storage(String),
    Runtime(String),
    WorkspaceNotFound(WorkspaceId),
    PermissionDenied { reason: String },
    InvalidCapability(String),
    ResourceExhausted(String),
    Network(String),
    Serialization(String),
    Io(String),
    Other(String),
}

/// The mathematical form of [`NexusError`].
pub enum NexusErrorView {
    Crypto(Seq<char>),
    Storage(Seq<char>),
    Runtime(Seq<char>),
    WorkspaceNotFound(Seq<u8>),
    PermissionDenied { reason: Seq<char> },
    InvalidCapability(Seq<char>),
    ResourceExhausted(Seq<char>),
    Network(Seq<char>),
    Serialization(Seq<char>),
    Io(Seq<char>),
    Other(Seq<char>),
}

impl DeepView for NexusError {
    type V = NexusErrorView;

    open spec fn deep_view(&self) -> NexusErrorView {
        match self {
            NexusError::Crypto(a0) => NexusErrorView::Crypto(a0.deep_view()),
            NexusError::Storage(a0) => NexusErrorView::Storage(a0.deep_view()),
            NexusError::Runtime(a0) => NexusErrorView::Runtime(a0.deep_view()),
            NexusError::WorkspaceNotFound(a0) => NexusErrorView::WorkspaceNotFound(a0.deep_view()),
            NexusError::PermissionDenied { reason } => NexusErrorView::PermissionDenied {
                reason: reason.deep_view(),
            },
            NexusError::InvalidCapability(a0) => NexusErrorView::InvalidCapability(a0.deep_view()),
            NexusError::ResourceExhausted(a0) => NexusErrorView::ResourceExhausted(a0.deep_view()),
            NexusError::Network(a0) => NexusErrorView::Network(a0.deep_view()),
            NexusError::Serialization(a0) => NexusErrorView::Serialization(a0.deep_view()),
            NexusError::Io(a0) => NexusErrorView::Io(a0.deep_view()),
            NexusError::Other(a0) => NexusErrorView::Other(a0.deep_view()),
        }
    }
}

impl Twin for NexusError {
    fn twin(&self) -> (r: Self) {
        match self {
            NexusError::Crypto(a0) => NexusError::Crypto(a0.twin()),
            NexusError::Storage(a0) => NexusError::Storage(a0.twin()),
            NexusError::Runtime(a0) => NexusError::Runtime(a0.twin()),
            NexusError::WorkspaceNotFound(a0) => NexusError::WorkspaceNotFound(a0.twin()),
            NexusError::PermissionDenied { reason } => NexusError::PermissionDenied {
                reason: reason.twin(),
            },
            NexusError::InvalidCapability(a0) => NexusError::InvalidCapability(a0.twin()),
            NexusError::ResourceExhausted(a0) => NexusError::ResourceExhausted(a0.twin()),
            NexusError::Network(a0) => NexusError::Network(a0.twin()),
            NexusError::Serialization(a0) => NexusError::Serialization(a0.twin()),
            NexusError::Io(a0) => NexusError::Io(a0.twin()),
            NexusError::Other(a0) => NexusError::Other(a0.twin()),
        }
    }
}

impl Clone for NexusError {
    fn clone(&self) -> (r: Self)
        ensures
            r.deep_view() == self.deep_view(),
    {
        self.twin()
    }
}

/// A result with the shared error type.
pub type NexusResult<T> = Result<T, NexusError>;

/// What an agent is allowed to do in a workspace.
#[derive(Clone, Copy, Debug, PartialEq, Eq, Structural)]
pub struct PermissionSet {
    pub read: bool,
    pub write: bool,
    pub execute: bool,
    pub admin: bool,
}

impl PermissionSet {
    /// Reading only.
    pub fn read_only() -> (r: PermissionSet)
        ensures
            r == (PermissionSet {
                read: true,
                write: false,
                execute: false,
                admin: false,
            }),
    {
        PermissionSet {
            read: true,
            write: false,
            execute: false,
            admin: false,
        }
    }

    /// Reading and writing.
    pub fn read_write() -> (r: PermissionSet)
        ensures
            r == (PermissionSet {
                read: true,
                write: true,
                execute: false,
                admin: false,
            }),
    {
        PermissionSet {
            read: true,
            write: true,
            execute: false,
            admin: false,
        }
    }

    /// Everything.
    pub fn full() -> (r: PermissionSet)
        ensures
            r == (PermissionSet {
                read: true,
                write: true,
                execute: true,
                admin: true,
            }),
    {
        PermissionSet {
            read: true,
            write: true,
            execute: true,
            admin: true,
        }
    }

    /// Reading is allowed outright or to an administrator.
    pub open spec fn may_read(self) -> bool {
        self.read || self.admin
    }

    /// Writing is allowed outright or to an administrator.
    pub open spec fn may_write(self) -> bool {
        self.write || self.admin
    }

    /// Executing is allowed outright or to an administrator.
    pub open spec fn may_exec(self) -> bool {
        self.execute || self.admin
    }

    /// Whether reading is allowed.
    pub fn can_read(&self) -> (r: bool)
        ensures
            r == self.may_read(),
    {
        self.read || self.admin
    }

    /// Whether writing is allowed.
    pub fn can_write(&self) -> (r: bool)
        ensures
            r == self.may_write(),
    {
        self.write || self.admin
    }

    /// Whether executing is allowed.
    pub fn can_exec(&self) -> (r: bool)
        ensures
            r == self.may_exec(),
    {
        self.execute || self.admin
    }

    /// Whether administration is allowed.
    pub fn is_admin(&self) -> (r: bool)
        ensures
            r == self.admin,
    {
        self.admin
    }
}

impl DeepView for PermissionSet {
    type V = PermissionSet;

    open spec fn deep_view(&self) -> PermissionSet {
        *self
    }
}

impl Twin for PermissionSet {
    fn twin(&self) -> (r: Self) {
        *self
    }
}

impl Encode for PermissionSet {
    open spec fn wire(v: PermissionSet) -> WireView {
        WireView::Record(
            Seq::<(Seq<char>, WireView)>::empty()
            .push(("read"@, bool::wire(v.read)))
            .push(("write"@, bool::wire(v.write)))
            .push(("exec"@, bool::wire(v.execute)))
            .push(("admin"@, bool::wire(v.admin))),
        )
    }

    fn to_wire(&self) -> (r: Wire) {
        Fields::new()
            .with("read", self.read.to_wire())
            .with("write", self.write.to_wire())
            .with("exec", self.execute.to_wire())
            .with("admin", self.admin.to_wire())
            .done()
    }
}

/// A signed grant: proof that `subject` is authorised by `issuer`.
#[derive(Debug, PartialEq, Eq)]
pub struct Capability {
    pub issuer: Did,
    pub subject: Did,
    pub workspace: WorkspaceId,
    pub permissions: PermissionSet,
    /// Unix time in seconds from which the grant is invalid.
    pub expires_at: u64,
    /// The grant that allowed the issuer to delegate.
    pub parent: Option<Box<Capability>>,
    /// How many more times the grant may be delegated; nothing means not at
    /// all.
    pub delegation_depth: Option<u8>,
    /// Ed25519 signature over the canonical form of the other fields.
    pub signature: Vec<u8>,
}

/// The mathematical form of [`Capability`].
pub struct CapabilityView {
    pub issuer: Seq<char>,
    pub subject: Seq<char>,
    pub workspace: Seq<u8>,
    pub permissions: PermissionSet,
    pub expires_at: u64,
    pub parent: Option<Box<CapabilityView>>,
    pub delegation_depth: Option<u8>,
    pub signature: Seq<u8>,
}

/// The mathematical form of a capability.
pub open spec fn capability_view(c: Capability) -> CapabilityView
    decreases c,
{
    CapabilityView {
        issuer: c.issuer.deep_view(),
        subject: c.subject.deep_view(),
        workspace: c.workspace.deep_view(),
        permissions: c.permissions,
        expires_at: c.expires_at,
        parent: match c.parent {
            Some(p) => Some(Box::new(capability_view(*p))),
            None => None,
        },
        delegation_depth: c.delegation_depth,
        signature: c.signature.deep_view(),
    }
}

impl DeepView for Capability {
    type V = CapabilityView;

    open spec fn deep_view(&self) -> CapabilityView {
        capability_view(*self)
    }
}

fn capability_twin(c: &Capability) -> (r: Capability)
    ensures
        r.deep_view() == c.deep_view(),
    decreases c,
{
    Capability {
        issuer: c.issuer.twin(),
        subject: c.subject.twin(),
        workspace: c.workspace,
        permissions: c.permissions,
        expires_at: c.expires_at,
        parent: match &c.parent {
            Some(p) => Some(Box::new(capability_twin(&**p))),
            None => None,
        },
        delegation_depth: c.delegation_depth,
        signature: c.signature.twin(),
    }
}

impl Twin for Capability {
    fn twin(&self) -> (r: Self) {
        capability_twin(self)
    }
}

impl Clone for Capability {
    fn clone(&self) -> (r: Self)
        ensures
            r.deep_view() == self.deep_view(),
    {
        self.twin()
    }
}

/// The document of a capability; an absent parent or depth is left out.
pub open spec fn capability_wire(v: CapabilityView) -> WireView
    decreases v,
{
    let head = Seq::<(Seq<char>, WireView)>::empty()
        .push(("issuer"@, Did::wire(v.issuer)))
        .push(("subject"@, Did::wire(v.subject)))
        .push(("workspace"@, WorkspaceId::wire(v.workspace)))
        .push(("permissions"@, PermissionSet::wire(v.permissions)))
        .push(("expires_at"@, u64::wire(v.expires_at)));
    let parent = match v.parent {
        Some(p) => Some(capability_wire(*p)),
        None => None,
    };
    WireView::Record(
        push_some(
            push_some(head, "parent"@, parent),
            "delegation_depth"@,
            some_wire::<u8>(v.delegation_depth),
        ).push(("signature"@, <Vec<u8> as Encode>::wire(v.signature))),
    )
}

fn capability_to_wire(c: &Capability) -> (r: Wire)
    ensures
        r.deep_view() == capability_wire(c.deep_view()),
    decreases c,
{
    let parent = match &c.parent {
        Some(p) => Some(capability_to_wire(&**p)),
        None => None,
    };
    Fields::new()
        .with("issuer", c.issuer.to_wire())
        .with("subject", c.subject.to_wire())
        .with("workspace", c.workspace.to_wire())
        .with("permissions", c.permissions.to_wire())
        .with("expires_at", c.expires_at.to_wire())
        .with_some("parent", parent)
        .with_some("delegation_depth", to_some_wire(&c.delegation_depth))
        .with("signature", c.signature.to_wire())
        .done()
}

impl Encode for Capability {
    open spec fn wire(v: CapabilityView) -> WireView {
        capability_wire(v)
    }

    fn to_wire(&self) -> (r: Wire) {
        capability_to_wire(self)
    }
}

/// A lightweight handle for an agent: its identity.
#[derive(Debug, PartialEq, Eq, Hash)]
pub struct AgentId(Did);

impl AgentId {
    /// The characters of the identity.
    pub closed spec fn view(&self) -> Seq<char> {
        self.0@
    }

    /// The handle of an identity.
    pub fn new(did: Did) -> (r: Self)
        ensures
            r@ == did@,
    {
        AgentId(did)
    }

    /// The identity.
    pub fn did(&self) -> (r: &Did)
        ensures
            r@ == self@,
    {
        &self.0
    }

    /// The identity as a text.
    pub fn to_string(&self) -> (r: String)
        ensures
            r@ == self@,
    {
        self.0.to_string()
    }
}

/// What an agent declares about itself, in brief.
#[derive(Debug, PartialEq, Eq)]
pub struct AgentManifest {
    pub name: String,
    pub description: String,
    /// Capabilities provided to others.
    pub provides: Vec<String>,
    /// Capabilities required from others.
    pub requires: Vec<String>,
}

/// The mathematical form of [`AgentManifest`].
#[verifier::ext_equal]
pub struct AgentManifestView {
    pub name: Seq<char>,
    pub description: Seq<char>,
    pub provides: Seq<Seq<char>>,
    pub requires: Seq<Seq<char>>,
}

impl DeepView for AgentManifest {
    type V = AgentManifestView;

    open spec fn deep_view(&self) -> AgentManifestView {
        AgentManifestView {
            name: self.name.deep_view(),
            description: self.description.deep_view(),
            provides: self.provides.deep_view(),
            requires: self.requires.deep_view(),
        }
    }
}

impl Twin for AgentManifest {
    fn twin(&self) -> (r: Self) {
        AgentManifest {
            name: self.name.twin(),
            description: self.description.twin(),
            provides: self.provides.twin(),
            requires: self.requires.twin(),
        }
    }
}

impl Clone for AgentManifest {
    fn clone(&self) -> (r: Self)
        ensures
            r.deep_view() == self.deep_view(),
    {
        self.twin()
    }
}

/// Resource types that are metered and priced.
#[derive(Clone, Copy, Debug, PartialEq, Eq, Hash, Structural)]
pub enum ResourceKind {
    /// CPU time, in milliseconds.
    CpuTime,
    /// Memory usage, in megabytes.
    Memory,
    /// Storage usage, in megabyte-hours.
    Storage,
    /// Network egress, in megabytes.
    Bandwidth,
}

impl DeepView for ResourceKind {
    type V = ResourceKind;

    open spec fn deep_view(&self) -> ResourceKind {
        *self
    }
}

impl Twin for ResourceKind {
    fn twin(&self) -> (r: Self) {
        *self
    }
}

/// A length of time.
#[derive(Copy, Debug, PartialEq, Eq, Default)]
pub struct Span {
    pub secs: u64,
    pub nanos: u32,
}

/// The mathematical form of [`Span`].
#[verifier::ext_equal]
pub struct SpanView {
    pub secs: u64,
    pub nanos: u32,
}

impl DeepView for Span {
    type V = SpanView;

    open spec fn deep_view(&self) -> SpanView {
        SpanView {
            secs: self.secs.deep_view(),
            nanos: self.nanos.deep_view(),
        }
    }
}

impl Twin for Span {
    fn twin(&self) -> (r: Self) {
        Span {
            secs: self.secs.twin(),
            nanos: self.nanos.twin(),
        }
    }
}

impl Clone for Span {
    fn clone(&self) -> (r: Self)
        ensures
            r.deep_view() == self.deep_view(),
    {
        self.twin()
    }
}

impl Encode for Span {
    open spec fn wire(v: SpanView) -> WireView {
        WireView::Record(
            Seq::<(Seq<char>, WireView)>::empty()
            .push(("secs"@, u64::wire(v.secs)))
            .push(("nanos"@, u32::wire(v.nanos))),
        )
    }

    fn to_wire(&self) -> (r: Wire) {
        Fields::new()
            .with("secs", self.secs.to_wire())
            .with("nanos", self.nanos.to_wire())
            .done()
    }
}

/// Resources that a process used.
#[derive(Debug, PartialEq, Eq, Default)]
pub struct ResourceUsage {
    pub wall_time: Span,
    pub cpu_user: Span,
    pub cpu_kernel: Span,
    pub peak_memory_bytes: Option<u64>,
    pub fs_read_bytes: u64,
    pub fs_write_bytes: u64,
    pub process_count: u64,
}

/// The mathematical form of [`ResourceUsage`].
#[verifier::ext_equal]
pub struct ResourceUsageView {
    pub wall_time: SpanView,
    pub cpu_user: SpanView,
    pub cpu_kernel: SpanView,
    pub peak_memory_bytes: Option<u64>,
    pub fs_read_bytes: u64,
    pub fs_write_bytes: u64,
    pub process_count: u64,
}

impl DeepView for ResourceUsage {
    type V = ResourceUsageView;

    open spec fn deep_view(&self) -> ResourceUsageView {
        ResourceUsageView {
            wall_time: self.wall_time.deep_view(),
            cpu_user: self.cpu_user.deep_view(),
            cpu_kernel: self.cpu_kernel.deep_view(),
            peak_memory_bytes: self.peak_memory_bytes.deep_view(),
            fs_read_bytes: self.fs_read_bytes.deep_view(),
            fs_write_bytes: self.fs_write_bytes.deep_view(),
            process_count: self.process_count.deep_view(),
        }
    }
}

impl Twin for ResourceUsage {
    fn twin(&self) -> (r: Self) {
        ResourceUsage {
            wall_time: self.wall_time.twin(),
            cpu_user: self.cpu_user.twin(),
            cpu_kernel: self.cpu_kernel.twin(),
            peak_memory_bytes: self.peak_memory_bytes.twin(),
            fs_read_bytes: self.fs_read_bytes.twin(),
            fs_write_bytes: self.fs_write_bytes.twin(),
            process_count: self.process_count.twin(),
        }
    }
}

impl Clone for ResourceUsage {
    fn clone(&self) -> (r: Self)
        ensures
            r.deep_view() == self.deep_view(),
    {
        self.twin()
    }
}

impl Encode for ResourceUsage {
    open spec fn wire(v: ResourceUsageView) -> WireView {
        WireView::Record(
            Seq::<(Seq<char>, WireView)>::empty()
            .push(("wall_time"@, Span::wire(v.wall_time)))
            .push(("cpu_user"@, Span::wire(v.cpu_user)))
            .push(("cpu_kernel"@, Span::wire(v.cpu_kernel)))
            .push(("peak_memory_bytes"@, <Option<u64> as Encode>::wire(v.peak_memory_bytes)))
            .push(("fs_read_bytes"@, u64::wire(v.fs_read_bytes)))
            .push(("fs_write_bytes"@, u64::wire(v.fs_write_bytes)))
            .push(("process_count"@, u64::wire(v.process_count))),
        )
    }

    fn to_wire(&self) -> (r: Wire) {
        Fields::new()
            .with("wall_time", self.wall_time.to_wire())
            .with("cpu_user", self.cpu_user.to_wire())
            .with("cpu_kernel", self.cpu_kernel.to_wire())
            .with("peak_memory_bytes", self.peak_memory_bytes.to_wire())
            .with("fs_read_bytes", self.fs_read_bytes.to_wire())
            .with("fs_write_bytes", self.fs_write_bytes.to_wire())
            .with("process_count", self.process_count.to_wire())
            .done()
    }
}

/// Measured resource usage used for pricing.
#[derive(Debug, PartialEq, Eq, Default)]
pub struct MeasuredUsage {
    pub wall_time: Span,
    pub cpu_user: Span,
    pub cpu_kernel: Span,
    pub peak_memory_bytes: Option<u64>,
    pub fs_read_bytes: u64,
    pub fs_write_bytes: u64,
    pub process_count: u64,
    pub bandwidth_bytes: u64,
}

/// The mathematical form of [`MeasuredUsage`].
#[verifier::ext_equal]
pub struct MeasuredUsageView {
    pub wall_time: SpanView,
    pub cpu_user: SpanView,
    pub cpu_kernel: SpanView,
    pub peak_memory_bytes: Option<u64>,
    pub fs_read_bytes: u64,
    pub fs_write_bytes: u64,
    pub process_count: u64,
    pub bandwidth_bytes: u64,
}

impl DeepView for MeasuredUsage {
    type V = MeasuredUsageView;

    open spec fn deep_view(&self) -> MeasuredUsageView {
        MeasuredUsageView {
            wall_time: self.wall_time.deep_view(),
            cpu_user: self.cpu_user.deep_view(),
            cpu_kernel: self.cpu_kernel.deep_view(),
            peak_memory_bytes: self.peak_memory_bytes.deep_view(),
            fs_read_bytes: self.fs_read_bytes.deep_view(),
            fs_write_bytes: self.fs_write_bytes.deep_view(),
            process_count: self.process_count.deep_view(),
            bandwidth_bytes: self.bandwidth_bytes.deep_view(),
        }
    }
}

impl Twin for MeasuredUsage {
    fn twin(&self) -> (r: Self) {
        MeasuredUsage {
            wall_time: self.wall_time.twin(),
            cpu_user: self.cpu_user.twin(),
            cpu_kernel: self.cpu_kernel.twin(),
            peak_memory_bytes: self.peak_memory_bytes.twin(),
            fs_read_bytes: self.fs_read_bytes.twin(),
            fs_write_bytes: self.fs_write_bytes.twin(),
            process_count: self.process_count.twin(),
            bandwidth_bytes: self.bandwidth_bytes.twin(),
        }
    }
}

impl Clone for MeasuredUsage {
    fn clone(&self) -> (r: Self)
        ensures
            r.deep_view() == self.deep_view(),
    {
        self.twin()
    }
}

/// What a finished process left behind.
#[derive(Debug, PartialEq, Eq)]
pub struct ProcessOutput {
    pub exit_code: i32,
    pub stdout: Vec<u8>,
    pub stderr: Vec<u8>,
    pub resources: ResourceUsage,
}

/// The mathematical form of [`ProcessOutput`].
#[verifier::ext_equal]
pub struct ProcessOutputView {
    pub exit_code: i32,
    pub stdout: Seq<u8>,
    pub stderr: Seq<u8>,
    pub resources: ResourceUsageView,
}

impl DeepView for ProcessOutput {
    type V = ProcessOutputView;

    open spec fn deep_view(&self) -> ProcessOutputView {
        ProcessOutputView {
            exit_code: self.exit_code.deep_view(),
            stdout: self.stdout.deep_view(),
            stderr: self.stderr.deep_view(),
            resources: self.resources.deep_view(),
        }
    }
}

impl Twin for ProcessOutput {
    fn twin(&self) -> (r: Self) {
        ProcessOutput {
            exit_code: self.exit_code.twin(),
            stdout: self.stdout.twin(),
            stderr: self.stderr.twin(),
            resources: self.resources.twin(),
        }
    }
}

impl Clone for ProcessOutput {
    fn clone(&self) -> (r: Self)
        ensures
            r.deep_view() == self.deep_view(),
    {
        self.twin()
    }
}

} // verus!
