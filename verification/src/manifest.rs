//! Agent manifests: what an agent declares about itself.
use crate::text;
use crate::twin::Twin;
use crate::types::Did;
use crate::wire::{self, Encode, Fields, Wire, WireView};
use vstd::prelude::*;
use vstd::string::*;

verus! {

/// A capability that an agent provides or requires.
#[derive(Debug, PartialEq, Eq, Hash)]
pub struct CapabilityDecl {
    /// A short name, such as `python-exec`.
    pub name: String,
    /// What it does, for people.
    pub description: String,
    /// The version of the capability.
    pub version: String,
    /// The estimated cost per unit, in credit.
    pub price_per_unit: u64,
    /// The unit of the price, such as `per-second`.
    pub price_unit: String,
}

/// The mathematical form of [`CapabilityDecl`].
#[verifier::ext_equal]
pub struct CapabilityDeclView {
    pub name: Seq<char>,
    pub description: Seq<char>,
    pub version: Seq<char>,
    pub price_per_unit: u64,
    pub price_unit: Seq<char>,
}

impl DeepView for CapabilityDecl {
    type V = CapabilityDeclView;

    open spec fn deep_view(&self) -> CapabilityDeclView {
        CapabilityDeclView {
            name: self.name.deep_view(),
            description: self.description.deep_view(),
            version: self.version.deep_view(),
            price_per_unit: self.price_per_unit.deep_view(),
            price_unit: self.price_unit.deep_view(),
        }
    }
}

impl Twin for CapabilityDecl {
    fn twin(&self) -> (r: Self) {
        CapabilityDecl {
            name: self.name.twin(),
            description: self.description.twin(),
            version: self.version.twin(),
            price_per_unit: self.price_per_unit.twin(),
            price_unit: self.price_unit.twin(),
        }
    }
}

impl Clone for CapabilityDecl {
    fn clone(&self) -> (r: Self)
        ensures
            r.deep_view() == self.deep_view(),
    {
        self.twin()
    }
}

impl Encode for CapabilityDecl {
    open spec fn wire(v: CapabilityDeclView) -> WireView {
        WireView::Record(
            Seq::<(Seq<char>, WireView)>::empty()
            .push(("name"@, String::wire(v.name)))
            .push(("description"@, String::wire(v.description)))
            .push(("version"@, String::wire(v.version)))
            .push(("price_per_unit"@, u64::wire(v.price_per_unit)))
            .push(("price_unit"@, String::wire(v.price_unit))),
        )
    }

    fn to_wire(&self) -> (r: Wire) {
        Fields::new()
            .with("name", self.name.to_wire())
            .with("description", self.description.to_wire())
            .with("version", self.version.to_wire())
            .with("price_per_unit", self.price_per_unit.to_wire())
            .with("price_unit", self.price_unit.to_wire())
            .done()
    }
}

/// What an agent declares about itself to the network.
#[derive(Debug, PartialEq, Eq)]
pub struct AgentManifest {
    /// Who the agent is.
    pub did: Did,
    /// Its name, for people.
    pub name: String,
    /// A short description.
    pub description: String,
    /// What it provides to others.
    pub provides: Vec<CapabilityDecl>,
    /// What it requires from others.
    pub requires_caps: Vec<CapabilityDecl>,
    /// Goals it pursues.
    pub goals: Vec<String>,
    /// Values it wants peers to know.
    pub values: Vec<String>,
    /// How it prefers to collaborate.
    pub preferences: Vec<String>,
    /// Roles it takes in workspaces.
    pub workspace_roles: Vec<String>,
    /// The version of the agent software.
    pub agent_version: String,
    /// When the manifest was made.
    pub created_at: u64,
}

/// The mathematical form of [`AgentManifest`].
#[verifier::ext_equal]
pub struct AgentManifestView {
    pub did: Seq<char>,
    pub name: Seq<char>,
    pub description: Seq<char>,
    pub provides: Seq<CapabilityDeclView>,
    pub requires_caps: Seq<CapabilityDeclView>,
    pub goals: Seq<Seq<char>>,
    pub values: Seq<Seq<char>>,
    pub preferences: Seq<Seq<char>>,
    pub workspace_roles: Seq<Seq<char>>,
    pub agent_version: Seq<char>,
    pub created_at: u64,
}

impl DeepView for AgentManifest {
    type V = AgentManifestView;

    open spec fn deep_view(&self) -> AgentManifestView {
        AgentManifestView {
            did: self.did.deep_view(),
            name: self.name.deep_view(),
            description: self.description.deep_view(),
            provides: self.provides.deep_view(),
            requires_caps: self.requires_caps.deep_view(),
            goals: self.goals.deep_view(),
            values: self.values.deep_view(),
            preferences: self.preferences.deep_view(),
            workspace_roles: self.workspace_roles.deep_view(),
            agent_version: self.agent_version.deep_view(),
            created_at: self.created_at.deep_view(),
        }
    }
}

impl Twin for AgentManifest {
    fn twin(&self) -> (r: Self) {
        AgentManifest {
            did: self.did.twin(),
            name: self.name.twin(),
            description: self.description.twin(),
            provides: self.provides.twin(),
            requires_caps: self.requires_caps.twin(),
            goals: self.goals.twin(),
            values: self.values.twin(),
            preferences: self.preferences.twin(),
            workspace_roles: self.workspace_roles.twin(),
            agent_version: self.agent_version.twin(),
            created_at: self.created_at.twin(),
        }
    }
}

impl Clone for AgentManifest {
    fn clone(&self) -> (r: Self)
        ensures
            r.deep_view() == self.deep_view(),
    {
        self.twin()
    }
}

impl Encode for AgentManifest {
    open spec fn wire(v: AgentManifestView) -> WireView {
        WireView::Record(
            Seq::<(Seq<char>, WireView)>::empty()
            .push(("did"@, Did::wire(v.did)))
            .push(("name"@, String::wire(v.name)))
            .push(("description"@, String::wire(v.description)))
            .push(("provides"@, <Vec<CapabilityDecl> as Encode>::wire(v.provides)))
            .push(("requires"@, <Vec<CapabilityDecl> as Encode>::wire(v.requires_caps)))
            .push(("goals"@, <Vec<String> as Encode>::wire(v.goals)))
            .push(("values"@, <Vec<String> as Encode>::wire(v.values)))
            .push(("preferences"@, <Vec<String> as Encode>::wire(v.preferences)))
            .push(("workspace_roles"@, <Vec<String> as Encode>::wire(v.workspace_roles)))
            .push(("agent_version"@, String::wire(v.agent_version)))
            .push(("created_at"@, u64::wire(v.created_at))),
        )
    }

    fn to_wire(&self) -> (r: Wire) {
        Fields::new()
            .with("did", self.did.to_wire())
            .with("name", self.name.to_wire())
            .with("description", self.description.to_wire())
            .with("provides", self.provides.to_wire())
            .with("requires", self.requires_caps.to_wire())
            .with("goals", self.goals.to_wire())
            .with("values", self.values.to_wire())
            .with("preferences", self.preferences.to_wire())
            .with("workspace_roles", self.workspace_roles.to_wire())
            .with("agent_version", self.agent_version.to_wire())
            .with("created_at", self.created_at.to_wire())
            .done()
    }
}

/// A manifest that names an agent and declares nothing else.
pub open spec fn bare_manifest(did: Seq<char>, name: Seq<char>, now: u64) -> AgentManifestView {
    AgentManifestView {
        did,
        name,
        description: Seq::empty(),
        provides: Seq::empty(),
        requires_caps: Seq::empty(),
        goals: Seq::empty(),
        values: Seq::empty(),
        preferences: Seq::empty(),
        workspace_roles: Seq::empty(),
        agent_version: "0.1.0"@,
        created_at: now,
    }
}

/// The first declaration with a name, if any.
pub open spec fn first_named(decls: Seq<CapabilityDeclView>, name: Seq<char>) -> Option<
    CapabilityDeclView,
>
    decreases decls.len(),
{
    if decls.len() == 0 {
        None
    } else if decls[0].name == name {
        Some(decls[0])
    } else {
        first_named(decls.skip(1), name)
    }
}

/// Whether some declaration has a name.
pub open spec fn names(decls: Seq<CapabilityDeclView>, name: Seq<char>) -> bool {
    exists|i: int| 0 <= i < decls.len() && (#[trigger] decls[i]).name == name
}

/// A declaration with a name is found exactly when there is one.
pub proof fn lemma_first_named(decls: Seq<CapabilityDeclView>, name: Seq<char>)
    ensures
        first_named(decls, name) is Some <==> names(decls, name),
        first_named(decls, name) matches Some(d) ==> d.name == name && decls.contains(d),
    decreases decls.len(),
{
    if decls.len() > 0 {
        let rest = decls.skip(1);
        lemma_first_named(rest, name);
        if decls[0].name != name {
            if names(decls, name) {
                let i = choose|i: int| 0 <= i < decls.len() && (#[trigger] decls[i]).name == name;
                assert(rest[i - 1].name == name);
            }
            if names(rest, name) {
                let i = choose|i: int| 0 <= i < rest.len() && (#[trigger] rest[i]).name == name;
                assert(decls[i + 1].name == name);
            }
            if let Some(d) = first_named(rest, name) {
                let i = rest.index_of(d);
                assert(decls[i + 1] == d);
            }
        } else {
            assert(decls.contains(decls[0]));
        }
    }
}

impl AgentManifest {
    /// A minimal manifest.
    pub fn new(did: Did, name: &str, now: u64) -> (r: Self)
        ensures
            r.deep_view() == bare_manifest(did.deep_view(), name@, now),
    {
        proof {
            reveal_strlit("");
        }
        let r = AgentManifest {
            did,
            name: text::owned(name),
            description: text::owned(""),
            provides: Vec::new(),
            requires_caps: Vec::new(),
            goals: Vec::new(),
            values: Vec::new(),
            preferences: Vec::new(),
            workspace_roles: Vec::new(),
            agent_version: text::owned("0.1.0"),
            created_at: now,
        };
        assert(r.deep_view() =~~= bare_manifest(did.deep_view(), name@, now));
        r
    }

    /// Adds a provided capability.
    pub fn provide(self, item: CapabilityDecl) -> (r: Self)
        ensures
            r.deep_view() == (AgentManifestView {
                provides: self.deep_view().provides.push(item.deep_view()),
                ..self.deep_view()
            }),
    {
        let mut r = self;
        r.provides.push(item);
        assert(r.provides.deep_view() =~= self.provides.deep_view().push(item.deep_view()));
        r
    }

    /// Adds a required capability.
    pub fn require(self, item: CapabilityDecl) -> (r: Self)
        ensures
            r.deep_view() == (AgentManifestView {
                requires_caps: self.deep_view().requires_caps.push(item.deep_view()),
                ..self.deep_view()
            }),
    {
        let mut r = self;
        r.requires_caps.push(item);
        assert(r.requires_caps.deep_view() =~= self.requires_caps.deep_view().push(item.deep_view()));
        r
    }

    /// Adds a long-lived goal.
    pub fn goal(self, item: &str) -> (r: Self)
        ensures
            r.deep_view() == (AgentManifestView {
                goals: self.deep_view().goals.push(item@),
                ..self.deep_view()
            }),
    {
        let mut r = self;
        r.goals.push(text::owned(item));
        assert(r.goals.deep_view() =~= self.goals.deep_view().push(item@));
        r
    }

    /// Adds a value.
    pub fn value(self, item: &str) -> (r: Self)
        ensures
            r.deep_view() == (AgentManifestView {
                values: self.deep_view().values.push(item@),
                ..self.deep_view()
            }),
    {
        let mut r = self;
        r.values.push(text::owned(item));
        assert(r.values.deep_view() =~= self.values.deep_view().push(item@));
        r
    }

    /// Adds a collaboration preference.
    pub fn preference(self, item: &str) -> (r: Self)
        ensures
            r.deep_view() == (AgentManifestView {
                preferences: self.deep_view().preferences.push(item@),
                ..self.deep_view()
            }),
    {
        let mut r = self;
        r.preferences.push(text::owned(item));
        assert(r.preferences.deep_view() =~= self.preferences.deep_view().push(item@));
        r
    }

    /// Adds a workspace role.
    pub fn workspace_role(self, item: &str) -> (r: Self)
        ensures
            r.deep_view() == (AgentManifestView {
                workspace_roles: self.deep_view().workspace_roles.push(item@),
                ..self.deep_view()
            }),
    {
        let mut r = self;
        r.workspace_roles.push(text::owned(item));
        assert(r.workspace_roles.deep_view() =~= self.workspace_roles.deep_view().push(item@));
        r
    }

    /// Whether the agent provides a capability with this name.
    pub fn provides_named(&self, name: &str) -> (r: bool)
        ensures
            r == names(self.deep_view().provides, name@),
    {
        proof {
            lemma_first_named(self.deep_view().provides, name@);
        }
        self.find_provided(name).is_some()
    }

    /// The first provided capability with this name.
    pub fn find_provided(&self, name: &str) -> (r: Option<&CapabilityDecl>)
        ensures
            r.deep_view() == first_named(self.deep_view().provides, name@),
    {
        let ghost decls = self.deep_view().provides;
        let mut i: usize = 0;
        assert(decls.skip(0) =~= decls);
        while i < self.provides.len()
            invariant
                i <= self.provides@.len(),
                decls == self.provides.deep_view(),
                first_named(decls, name@) == first_named(decls.skip(i as int), name@),
            decreases self.provides@.len() - i,
        {
            assert(decls.skip(i as int)[0] == self.provides@[i as int].deep_view());
            assert(decls.skip(i as int).skip(1) =~= decls.skip(i + 1));
            if text::same_text(self.provides[i].name.as_str(), name) {
                return Some(&self.provides[i]);
            }
            i = i + 1;
        }
        None
    }

    /// The JSON form for gossip.
    pub fn to_json(&self) -> (r: Vec<u8>)
        ensures
            r@ == wire::json(AgentManifest::wire(self.deep_view())),
    {
        wire::json_bytes(&self.to_wire())
    }
}

} // verus!
