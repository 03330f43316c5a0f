//! Recommendations from the local view of the society: providers, intents and
//! collaborators.
//!
//! Whom to consider, why, and in what order is decided here. Scores that are
//! folded from histories are handed in.
use crate::facts::{
    AgentIntent, AgentIntentView, CollectiveDecisionOutcome, FactTruthStatus, GovernanceSignal,
    GovernanceSignalView, IntentKind, IntentResponse, IntentResponseKind, IntentResponseView,
    RelationKind, SocialEdge, SocialEdgeView, VerifiedCapability, VerifiedCapabilityView,
};
use crate::manifest::{
    first_named, names, AgentManifest, AgentManifestView, CapabilityDecl, CapabilityDeclView,
};
use crate::order::{self, KeyPart, KeyPartView, SortKey};
use crate::society::{
    answers, by_place, by_response, evidence_named, forked, places, signals_for, Society,
    SocietyView,
};
use crate::table::{self, Key};
use crate::task_market;
use crate::text;
use crate::twin::Twin;
use crate::types::{Did, WorkspaceId};
use vstd::prelude::*;
use vstd::string::*;

verus! {

/// A score between zero and one, by the bits of its floating-point form: the
/// greater of two scores has the greater bits.
#[derive(Clone, Copy, Debug, PartialEq, Eq, Hash, Structural)]
pub struct Score {
    pub bits: u64,
}

impl DeepView for Score {
    type V = Score;

    open spec fn deep_view(&self) -> Score {
        *self
    }
}

impl Twin for Score {
    fn twin(&self) -> (r: Self) {
        *self
    }
}

/// The bits of 0.60.
pub const CAUTIOUS: u64 = 0x3FE3_3333_3333_3333;

/// The bits of 0.7.
pub const TRUSTED: u64 = 0x3FE6_6666_6666_6666;

/// What an agent may do about an intent.
#[derive(Clone, Copy, Debug, PartialEq, Eq, Hash, Structural)]
pub enum IntentActionKind {
    RespondIntent,
    OfferTask,
    JoinWorkspace,
    ProposeCollective,
}

impl DeepView for IntentActionKind {
    type V = IntentActionKind;

    open spec fn deep_view(&self) -> IntentActionKind {
        *self
    }
}

impl Twin for IntentActionKind {
    fn twin(&self) -> (r: Self) {
        *self
    }
}

/// A draft action that an agent may choose after reading an intent.
#[derive(Debug, PartialEq, Eq)]
pub struct IntentActionPlan {
    pub kind: IntentActionKind,
    pub event_hint: String,
    pub intent_id: String,
    pub actor: Did,
    pub peer: Did,
    pub title: String,
    pub body: String,
    pub confidence: Score,
    pub workspace: Option<WorkspaceId>,
    pub task_id: Option<String>,
    pub capability: Option<String>,
    pub response_kind: Option<IntentResponseKind>,
    pub suggested_price: Option<u64>,
    pub estimated_time_secs: Option<u64>,
}

/// The mathematical form of [`IntentActionPlan`].
#[verifier::ext_equal]
pub struct IntentActionPlanView {
    pub kind: IntentActionKind,
    pub event_hint: Seq<char>,
    pub intent_id: Seq<char>,
    pub actor: Seq<char>,
    pub peer: Seq<char>,
    pub title: Seq<char>,
    pub body: Seq<char>,
    pub confidence: Score,
    pub workspace: Option<Seq<u8>>,
    pub task_id: Option<Seq<char>>,
    pub capability: Option<Seq<char>>,
    pub response_kind: Option<IntentResponseKind>,
    pub suggested_price: Option<u64>,
    pub estimated_time_secs: Option<u64>,
}

impl DeepView for IntentActionPlan {
    type V = IntentActionPlanView;

    open spec fn deep_view(&self) -> IntentActionPlanView {
        IntentActionPlanView {
            kind: self.kind.deep_view(),
            event_hint: self.event_hint.deep_view(),
            intent_id: self.intent_id.deep_view(),
            actor: self.actor.deep_view(),
            peer: self.peer.deep_view(),
            title: self.title.deep_view(),
            body: self.body.deep_view(),
            confidence: self.confidence.deep_view(),
            workspace: self.workspace.deep_view(),
            task_id: self.task_id.deep_view(),
            capability: self.capability.deep_view(),
            response_kind: self.response_kind.deep_view(),
            suggested_price: self.suggested_price.deep_view(),
            estimated_time_secs: self.estimated_time_secs.deep_view(),
        }
    }
}

impl Twin for IntentActionPlan {
    fn twin(&self) -> (r: Self) {
        IntentActionPlan {
            kind: self.kind.twin(),
            event_hint: self.event_hint.twin(),
            intent_id: self.intent_id.twin(),
            actor: self.actor.twin(),
            peer: self.peer.twin(),
            title: self.title.twin(),
            body: self.body.twin(),
            confidence: self.confidence.twin(),
            workspace: self.workspace.twin(),
            task_id: self.task_id.twin(),
            capability: self.capability.twin(),
            response_kind: self.response_kind.twin(),
            suggested_price: self.suggested_price.twin(),
            estimated_time_secs: self.estimated_time_secs.twin(),
        }
    }
}

impl Clone for IntentActionPlan {
    fn clone(&self) -> (r: Self)
        ensures
            r.deep_view() == self.deep_view(),
    {
        self.twin()
    }
}

/// What is known of an intent from the view of an agent; scores in percent.
#[derive(Debug, PartialEq, Eq)]
pub struct IntentFacts {
    pub intent: AgentIntent,
    pub author_name: Option<String>,
    /// How the agent sees the author.
    pub edge: Option<SocialEdge>,
    pub capability_score: u64,
    pub workspace_score: u64,
    pub response_score: u64,
    pub preference_score: u64,
    pub response_count: usize,
    pub fulfilled: bool,
}

/// The mathematical form of [`IntentFacts`].
#[verifier::ext_equal]
pub struct IntentFactsView {
    pub intent: AgentIntentView,
    pub author_name: Option<Seq<char>>,
    pub edge: Option<SocialEdgeView>,
    pub capability_score: u64,
    pub workspace_score: u64,
    pub response_score: u64,
    pub preference_score: u64,
    pub response_count: usize,
    pub fulfilled: bool,
}

impl DeepView for IntentFacts {
    type V = IntentFactsView;

    open spec fn deep_view(&self) -> IntentFactsView {
        IntentFactsView {
            intent: self.intent.deep_view(),
            author_name: self.author_name.deep_view(),
            edge: self.edge.deep_view(),
            capability_score: self.capability_score.deep_view(),
            workspace_score: self.workspace_score.deep_view(),
            response_score: self.response_score.deep_view(),
            preference_score: self.preference_score.deep_view(),
            response_count: self.response_count.deep_view(),
            fulfilled: self.fulfilled.deep_view(),
        }
    }
}

impl Twin for IntentFacts {
    fn twin(&self) -> (r: Self) {
        IntentFacts {
            intent: self.intent.twin(),
            author_name: self.author_name.twin(),
            edge: self.edge.twin(),
            capability_score: self.capability_score.twin(),
            workspace_score: self.workspace_score.twin(),
            response_score: self.response_score.twin(),
            preference_score: self.preference_score.twin(),
            response_count: self.response_count.twin(),
            fulfilled: self.fulfilled.twin(),
        }
    }
}

impl Clone for IntentFacts {
    fn clone(&self) -> (r: Self)
        ensures
            r.deep_view() == self.deep_view(),
    {
        self.twin()
    }
}

/// Scores of an intent that are folded from histories, and how confident each
/// action on it is.
#[derive(Debug, PartialEq, Eq)]
pub struct IntentScores {
    pub social: Score,
    pub reputation: Score,
    pub ranking: Score,
    pub respond: Score,
    pub offer: Score,
    pub join: Score,
    pub propose: Score,
}

/// The mathematical form of [`IntentScores`].
#[verifier::ext_equal]
pub struct IntentScoresView {
    pub social: Score,
    pub reputation: Score,
    pub ranking: Score,
    pub respond: Score,
    pub offer: Score,
    pub join: Score,
    pub propose: Score,
}

impl DeepView for IntentScores {
    type V = IntentScoresView;

    open spec fn deep_view(&self) -> IntentScoresView {
        IntentScoresView {
            social: self.social.deep_view(),
            reputation: self.reputation.deep_view(),
            ranking: self.ranking.deep_view(),
            respond: self.respond.deep_view(),
            offer: self.offer.deep_view(),
            join: self.join.deep_view(),
            propose: self.propose.deep_view(),
        }
    }
}

impl Twin for IntentScores {
    fn twin(&self) -> (r: Self) {
        IntentScores {
            social: self.social.twin(),
            reputation: self.reputation.twin(),
            ranking: self.ranking.twin(),
            respond: self.respond.twin(),
            offer: self.offer.twin(),
            join: self.join.twin(),
            propose: self.propose.twin(),
        }
    }
}

impl Clone for IntentScores {
    fn clone(&self) -> (r: Self)
        ensures
            r.deep_view() == self.deep_view(),
    {
        self.twin()
    }
}

/// An intent that an agent may want to notice or answer.
#[derive(Debug, PartialEq, Eq)]
pub struct IntentRecommendation {
    pub intent: AgentIntent,
    pub author_name: Option<String>,
    pub capability_score: u64,
    pub workspace_score: u64,
    pub social_score: Score,
    pub reputation_score: Score,
    pub response_score: u64,
    pub preference_score: u64,
    pub response_count: usize,
    pub fulfilled: bool,
    pub ranking_score: Score,
    pub reasons: Vec<String>,
    pub actions: Vec<IntentActionPlan>,
}

/// The mathematical form of [`IntentRecommendation`].
#[verifier::ext_equal]
pub struct IntentRecommendationView {
    pub intent: AgentIntentView,
    pub author_name: Option<Seq<char>>,
    pub capability_score: u64,
    pub workspace_score: u64,
    pub social_score: Score,
    pub reputation_score: Score,
    pub response_score: u64,
    pub preference_score: u64,
    pub response_count: usize,
    pub fulfilled: bool,
    pub ranking_score: Score,
    pub reasons: Seq<Seq<char>>,
    pub actions: Seq<IntentActionPlanView>,
}

impl DeepView for IntentRecommendation {
    type V = IntentRecommendationView;

    open spec fn deep_view(&self) -> IntentRecommendationView {
        IntentRecommendationView {
            intent: self.intent.deep_view(),
            author_name: self.author_name.deep_view(),
            capability_score: self.capability_score.deep_view(),
            workspace_score: self.workspace_score.deep_view(),
            social_score: self.social_score.deep_view(),
            reputation_score: self.reputation_score.deep_view(),
            response_score: self.response_score.deep_view(),
            preference_score: self.preference_score.deep_view(),
            response_count: self.response_count.deep_view(),
            fulfilled: self.fulfilled.deep_view(),
            ranking_score: self.ranking_score.deep_view(),
            reasons: self.reasons.deep_view(),
            actions: self.actions.deep_view(),
        }
    }
}

impl Twin for IntentRecommendation {
    fn twin(&self) -> (r: Self) {
        IntentRecommendation {
            intent: self.intent.twin(),
            author_name: self.author_name.twin(),
            capability_score: self.capability_score.twin(),
            workspace_score: self.workspace_score.twin(),
            social_score: self.social_score.twin(),
            reputation_score: self.reputation_score.twin(),
            response_score: self.response_score.twin(),
            preference_score: self.preference_score.twin(),
            response_count: self.response_count.twin(),
            fulfilled: self.fulfilled.twin(),
            ranking_score: self.ranking_score.twin(),
            reasons: self.reasons.twin(),
            actions: self.actions.twin(),
        }
    }
}

impl Clone for IntentRecommendation {
    fn clone(&self) -> (r: Self)
        ensures
            r.deep_view() == self.deep_view(),
    {
        self.twin()
    }
}

/// What is known of a provider from the view of a requester.
#[derive(Debug, PartialEq, Eq)]
pub struct ProviderFacts {
    pub did: Did,
    pub name: String,
    pub capability: CapabilityDecl,
    /// How the requester sees the provider.
    pub edge: Option<SocialEdge>,
    pub governance_signals: Vec<GovernanceSignal>,
    pub verified_capability: Option<VerifiedCapability>,
    /// Whether a collective accepted a claim of the provider with an anchor.
    pub witnessed: bool,
}

/// The mathematical form of [`ProviderFacts`].
#[verifier::ext_equal]
pub struct ProviderFactsView {
    pub did: Seq<char>,
    pub name: Seq<char>,
    pub capability: CapabilityDeclView,
    pub edge: Option<SocialEdgeView>,
    pub governance_signals: Seq<GovernanceSignalView>,
    pub verified_capability: Option<VerifiedCapabilityView>,
    pub witnessed: bool,
}

impl DeepView for ProviderFacts {
    type V = ProviderFactsView;

    open spec fn deep_view(&self) -> ProviderFactsView {
        ProviderFactsView {
            did: self.did.deep_view(),
            name: self.name.deep_view(),
            capability: self.capability.deep_view(),
            edge: self.edge.deep_view(),
            governance_signals: self.governance_signals.deep_view(),
            verified_capability: self.verified_capability.deep_view(),
            witnessed: self.witnessed.deep_view(),
        }
    }
}

impl Twin for ProviderFacts {
    fn twin(&self) -> (r: Self) {
        ProviderFacts {
            did: self.did.twin(),
            name: self.name.twin(),
            capability: self.capability.twin(),
            edge: self.edge.twin(),
            governance_signals: self.governance_signals.twin(),
            verified_capability: self.verified_capability.twin(),
            witnessed: self.witnessed.twin(),
        }
    }
}

impl Clone for ProviderFacts {
    fn clone(&self) -> (r: Self)
        ensures
            r.deep_view() == self.deep_view(),
    {
        self.twin()
    }
}

/// Scores of a provider that are folded from histories.
#[derive(Debug, PartialEq, Eq)]
pub struct ProviderScores {
    pub social: Score,
    pub reputation: Score,
    pub reachability: Score,
    pub sybil_cluster: Score,
    pub governance: Score,
    /// The weighted mean of the others, before caution.
    pub ranking: Score,
}

/// The mathematical form of [`ProviderScores`].
#[verifier::ext_equal]
pub struct ProviderScoresView {
    pub social: Score,
    pub reputation: Score,
    pub reachability: Score,
    pub sybil_cluster: Score,
    pub governance: Score,
    pub ranking: Score,
}

impl DeepView for ProviderScores {
    type V = ProviderScoresView;

    open spec fn deep_view(&self) -> ProviderScoresView {
        ProviderScoresView {
            social: self.social.deep_view(),
            reputation: self.reputation.deep_view(),
            reachability: self.reachability.deep_view(),
            sybil_cluster: self.sybil_cluster.deep_view(),
            governance: self.governance.deep_view(),
            ranking: self.ranking.deep_view(),
        }
    }
}

impl Twin for ProviderScores {
    fn twin(&self) -> (r: Self) {
        ProviderScores {
            social: self.social.twin(),
            reputation: self.reputation.twin(),
            reachability: self.reachability.twin(),
            sybil_cluster: self.sybil_cluster.twin(),
            governance: self.governance.twin(),
            ranking: self.ranking.twin(),
        }
    }
}

impl Clone for ProviderScores {
    fn clone(&self) -> (r: Self)
        ensures
            r.deep_view() == self.deep_view(),
    {
        self.twin()
    }
}

/// A provider that appears able, affordable and reliable.
#[derive(Debug, PartialEq, Eq)]
pub struct ProviderRecommendation {
    pub did: Did,
    pub name: String,
    pub capability: CapabilityDecl,
    pub social_score: Score,
    pub reputation_score: Score,
    pub reachability_score: Score,
    pub high_trust_eligible: bool,
    pub sybil_cluster_score: Score,
    pub governance_score: Score,
    pub governance_signals: Vec<GovernanceSignal>,
    pub verified_capability: Option<VerifiedCapability>,
    pub price_per_unit: u64,
    pub ranking_score: Score,
}

/// The mathematical form of [`ProviderRecommendation`].
#[verifier::ext_equal]
pub struct ProviderRecommendationView {
    pub did: Seq<char>,
    pub name: Seq<char>,
    pub capability: CapabilityDeclView,
    pub social_score: Score,
    pub reputation_score: Score,
    pub reachability_score: Score,
    pub high_trust_eligible: bool,
    pub sybil_cluster_score: Score,
    pub governance_score: Score,
    pub governance_signals: Seq<GovernanceSignalView>,
    pub verified_capability: Option<VerifiedCapabilityView>,
    pub price_per_unit: u64,
    pub ranking_score: Score,
}

impl DeepView for ProviderRecommendation {
    type V = ProviderRecommendationView;

    open spec fn deep_view(&self) -> ProviderRecommendationView {
        ProviderRecommendationView {
            did: self.did.deep_view(),
            name: self.name.deep_view(),
            capability: self.capability.deep_view(),
            social_score: self.social_score.deep_view(),
            reputation_score: self.reputation_score.deep_view(),
            reachability_score: self.reachability_score.deep_view(),
            high_trust_eligible: self.high_trust_eligible.deep_view(),
            sybil_cluster_score: self.sybil_cluster_score.deep_view(),
            governance_score: self.governance_score.deep_view(),
            governance_signals: self.governance_signals.deep_view(),
            verified_capability: self.verified_capability.deep_view(),
            price_per_unit: self.price_per_unit.deep_view(),
            ranking_score: self.ranking_score.deep_view(),
        }
    }
}

impl Twin for ProviderRecommendation {
    fn twin(&self) -> (r: Self) {
        ProviderRecommendation {
            did: self.did.twin(),
            name: self.name.twin(),
            capability: self.capability.twin(),
            social_score: self.social_score.twin(),
            reputation_score: self.reputation_score.twin(),
            reachability_score: self.reachability_score.twin(),
            high_trust_eligible: self.high_trust_eligible.twin(),
            sybil_cluster_score: self.sybil_cluster_score.twin(),
            governance_score: self.governance_score.twin(),
            governance_signals: self.governance_signals.twin(),
            verified_capability: self.verified_capability.twin(),
            price_per_unit: self.price_per_unit.twin(),
            ranking_score: self.ranking_score.twin(),
        }
    }
}

impl Clone for ProviderRecommendation {
    fn clone(&self) -> (r: Self)
        ensures
            r.deep_view() == self.deep_view(),
    {
        self.twin()
    }
}

/// The rank of an action kind among equals.
pub open spec fn kind_rank(kind: IntentActionKind) -> u64 {
    match kind {
        IntentActionKind::RespondIntent => 0,
        IntentActionKind::OfferTask => 1,
        IntentActionKind::JoinWorkspace => 2,
        IntentActionKind::ProposeCollective => 3,
    }
}

fn action_kind_order(kind: IntentActionKind) -> (r: u64)
    ensures
        r == kind_rank(kind),
{
    match kind {
        IntentActionKind::RespondIntent => 0,
        IntentActionKind::OfferTask => 1,
        IntentActionKind::JoinWorkspace => 2,
        IntentActionKind::ProposeCollective => 3,
    }
}

/// Plans by confidence, greatest first, then by kind and title.
pub open spec fn by_confidence() -> spec_fn(IntentActionPlanView) -> SortKey {
    |v: IntentActionPlanView|
        seq![
            KeyPartView::Num(order::opposite(v.confidence.bits as int)),
            KeyPartView::Num(kind_rank(v.kind) as int),
            KeyPartView::Text(v.title),
        ]
}

fn by_confidence_of(v: &IntentActionPlan) -> (k: Vec<KeyPart>)
    ensures
        k.deep_view() == by_confidence()(v.deep_view()),
{
    let k = vec![
            KeyPart::Num(order::negated(v.confidence.bits)),
            KeyPart::Num(action_kind_order(v.kind) as i128),
            KeyPart::Text(v.title.twin()),
        ];
    assert(k.deep_view() =~= by_confidence()(v.deep_view()));
    k
}

/// Intents by ranking, capability and workspace, greatest first, then by time,
/// author and identifier.
pub open spec fn by_intent_rank() -> spec_fn(IntentRecommendationView) -> SortKey {
    |v: IntentRecommendationView|
        seq![
            KeyPartView::Num(order::opposite(v.ranking_score.bits as int)),
            KeyPartView::Num(order::opposite(v.capability_score as int)),
            KeyPartView::Num(order::opposite(v.workspace_score as int)),
            KeyPartView::Num(v.intent.created_at as int),
            KeyPartView::Text(v.intent.author),
            KeyPartView::Text(v.intent.id),
        ]
}

fn by_intent_rank_of(v: &IntentRecommendation) -> (k: Vec<KeyPart>)
    ensures
        k.deep_view() == by_intent_rank()(v.deep_view()),
{
    let k = vec![
            KeyPart::Num(order::negated(v.ranking_score.bits)),
            KeyPart::Num(order::negated(v.capability_score)),
            KeyPart::Num(order::negated(v.workspace_score)),
            KeyPart::Num(v.intent.created_at as i128),
            KeyPart::Text(v.intent.author.to_string()),
            KeyPart::Text(v.intent.id.twin()),
        ];
    assert(k.deep_view() =~= by_intent_rank()(v.deep_view()));
    k
}

/// Providers by ranking, social and governance score, greatest first, then by
/// price and identity.
pub open spec fn by_provider_rank() -> spec_fn(ProviderRecommendationView) -> SortKey {
    |v: ProviderRecommendationView|
        seq![
            KeyPartView::Num(order::opposite(v.ranking_score.bits as int)),
            KeyPartView::Num(order::opposite(v.social_score.bits as int)),
            KeyPartView::Num(order::opposite(v.governance_score.bits as int)),
            KeyPartView::Num(v.price_per_unit as int),
            KeyPartView::Text(v.did),
        ]
}

fn by_provider_rank_of(v: &ProviderRecommendation) -> (k: Vec<KeyPart>)
    ensures
        k.deep_view() == by_provider_rank()(v.deep_view()),
{
    let k = vec![
            KeyPart::Num(order::negated(v.ranking_score.bits)),
            KeyPart::Num(order::negated(v.social_score.bits)),
            KeyPart::Num(order::negated(v.governance_score.bits)),
            KeyPart::Num(v.price_per_unit as i128),
            KeyPart::Text(v.did.to_string()),
        ];
    assert(k.deep_view() =~= by_provider_rank()(v.deep_view()));
    k
}

/// The first of several, at most so many.
pub open spec fn at_most<A>(s: Seq<A>, limit: usize) -> Seq<A> {
    if s.len() <= limit {
        s
    } else {
        s.subrange(0, limit as int)
    }
}

/// Whether an agent blocks another.
pub open spec fn blocks(v: SocietyView, from: Seq<char>, to: Seq<char>) -> bool {
    table::find(v.edges, (from, to)) matches Some(edge) && edge.kind == RelationKind::Blocked
}

fn is_blocked(society: &Society, from: &Did, to: &Did) -> (r: bool)
    ensures
        r == blocks(society.deep_view(), from.deep_view(), to.deep_view()),
{
    match society.edge(from, to) {
        Some(edge) => edge.kind == RelationKind::Blocked,
        None => false,
    }
}

/// How well an intent fits what an agent declares, in percent.
pub open spec fn capability_percent(
    manifest: Option<AgentManifestView>,
    intent: AgentIntentView,
) -> u64 {
    match intent.capability {
        None => match intent.kind {
            IntentKind::Offer | IntentKind::Status => 45,
            IntentKind::Goal | IntentKind::Proposal => 55,
            IntentKind::Need => 50,
        },
        Some(capability) => match manifest {
            None => 25,
            Some(m) => if names(m.provides, capability) {
                match intent.kind {
                    IntentKind::Need => 100,
                    IntentKind::Goal | IntentKind::Proposal => 90,
                    IntentKind::Status | IntentKind::Offer => 70,
                }
            } else if names(m.requires_caps, capability) {
                match intent.kind {
                    IntentKind::Offer => 95,
                    IntentKind::Proposal | IntentKind::Status => 70,
                    IntentKind::Goal | IntentKind::Need => 45,
                }
            } else {
                20
            },
        },
    }
}

fn requires_named(manifest: &AgentManifest, name: &str) -> (r: bool)
    ensures
        r == names(manifest.deep_view().requires_caps, name@),
{
    let ghost decls = manifest.requires_caps.deep_view();
    let mut i: usize = 0;
    while i < manifest.requires_caps.len()
        invariant
            i <= manifest.requires_caps@.len(),
            decls == manifest.requires_caps.deep_view(),
            forall|j: int| 0 <= j < i ==> (#[trigger] decls[j]).name != name@,
        decreases manifest.requires_caps@.len() - i,
    {
        if text::same_text(manifest.requires_caps[i].name.as_str(), name) {
            assert(manifest.deep_view().requires_caps[i as int].name == name@);
            return true;
        }
        i = i + 1;
    }
    false
}

fn intent_capability_score(manifest: Option<&AgentManifest>, intent: &AgentIntent) -> (r: u64)
    ensures
        r == capability_percent(manifest.deep_view(), intent.deep_view()),
{
    match &intent.capability {
        None => match intent.kind {
            IntentKind::Offer | IntentKind::Status => 45,
            IntentKind::Goal | IntentKind::Proposal => 55,
            IntentKind::Need => 50,
        },
        Some(capability) => match manifest {
            None => 25,
            Some(m) => {
                if m.provides_named(capability.as_str()) {
                    match intent.kind {
                        IntentKind::Need => 100,
                        IntentKind::Goal | IntentKind::Proposal => 90,
                        IntentKind::Status | IntentKind::Offer => 70,
                    }
                } else if requires_named(m, capability.as_str()) {
                    match intent.kind {
                        IntentKind::Offer => 95,
                        IntentKind::Proposal | IntentKind::Status => 70,
                        IntentKind::Goal | IntentKind::Need => 45,
                    }
                } else {
                    20
                }
            },
        },
    }
}

/// How near an intent's workspace is to an agent, in percent.
pub open spec fn workspace_percent(workspaces: Seq<Seq<u8>>, intent: AgentIntentView) -> u64 {
    match intent.workspace {
        Some(w) => if workspaces.contains(w) {
            100
        } else {
            35
        },
        None => 55,
    }
}

fn intent_workspace_score(workspaces: &Vec<WorkspaceId>, intent: &AgentIntent) -> (r: u64)
    ensures
        r == workspace_percent(workspaces.deep_view(), intent.deep_view()),
{
    match &intent.workspace {
        None => 55,
        Some(w) => {
            let ghost all = workspaces.deep_view();
            let mut i: usize = 0;
            while i < workspaces.len()
                invariant
                    i <= workspaces@.len(),
                    all == workspaces.deep_view(),
                    intent.deep_view().workspace == Some(w.deep_view()),
                    forall|j: int| 0 <= j < i ==> #[trigger] all[j] != w.deep_view(),
                decreases workspaces@.len() - i,
            {
                if workspaces[i].same(w) {
                    assert(workspaces.deep_view()[i as int] == w.deep_view());
                    return 100;
                }
                i = i + 1;
            }
            35
        },
    }
}

/// Responses of a kind.
pub open spec fn of_kind(kind: IntentResponseKind) -> spec_fn(IntentResponseView) -> bool {
    |r: IntentResponseView| r.kind == kind
}

/// Responses that leave an intent open.
pub open spec fn tentative() -> spec_fn(IntentResponseView) -> bool {
    |r: IntentResponseView|
        r.kind == IntentResponseKind::Interested || r.kind == IntentResponseKind::Counter
}

/// How much an intent still waits for a response, in percent.
pub open spec fn response_percent(responses: Seq<IntentResponseView>) -> u64 {
    if responses.filter(of_kind(IntentResponseKind::Fulfilled)).len() > 0 {
        0
    } else if responses.filter(of_kind(IntentResponseKind::Accept)).len() > 0 {
        35
    } else {
        let interested = responses.filter(tentative()).len();
        if interested >= 7 {
            20
        } else {
            (100 - 12 * interested) as u64
        }
    }
}

fn copied<'a>(responses: &Vec<&'a IntentResponse>) -> (r: Vec<&'a IntentResponse>)
    ensures
        r.deep_view() == responses.deep_view(),
{
    let mut r: Vec<&'a IntentResponse> = Vec::new();
    while r.len() < responses.len()
        invariant
            r@.len() <= responses@.len(),
            forall|j: int|
                0 <= j < r@.len() ==> (#[trigger] r@[j]).deep_view() == responses.deep_view()[j],
        decreases responses@.len() - r@.len(),
    {
        r.push(responses[r.len()]);
    }
    assert(r.deep_view() =~= responses.deep_view());
    r
}

fn count_kind(responses: &Vec<&IntentResponse>, kind: IntentResponseKind) -> (r: usize)
    ensures
        r == responses.deep_view().filter(of_kind(kind)).len(),
{
    let keep = |v: &IntentResponse| -> (b: bool)
        ensures
            b == of_kind(kind)(v.deep_view()),
        { v.kind == kind };
    order::kept(copied(responses), keep, Ghost(of_kind(kind))).len()
}

fn count_tentative(responses: &Vec<&IntentResponse>) -> (r: usize)
    ensures
        r == responses.deep_view().filter(tentative()).len(),
{
    let keep = |v: &IntentResponse| -> (b: bool)
        ensures
            b == tentative()(v.deep_view()),
        {
            v.kind == IntentResponseKind::Interested || v.kind == IntentResponseKind::Counter
        };
    order::kept(copied(responses), keep, Ghost(tentative())).len()
}

fn intent_response_score(responses: &Vec<&IntentResponse>) -> (r: u64)
    ensures
        r == response_percent(responses.deep_view()),
{
    if count_kind(responses, IntentResponseKind::Fulfilled) > 0 {
        return 0;
    }
    if count_kind(responses, IntentResponseKind::Accept) > 0 {
        return 35;
    }
    let interested = count_tentative(responses);
    if interested >= 7 {
        20
    } else {
        100 - 12 * (interested as u64)
    }
}

/// What an agent says of goals, values, preferences and roles.
pub open spec fn declared(m: AgentManifestView) -> Seq<Seq<char>> {
    m.goals + m.values + m.preferences + m.workspace_roles
}

/// Whether a value mentions a tag, in either case of letters.
pub open spec fn text_matches(value: Seq<char>, tag: Seq<char>) -> bool {
    text::occurs_in(text::lower(value), text::lower(tag))
}

/// Whether some value mentions a tag.
pub open spec fn mentioned_in(values: Seq<Seq<char>>, tag: Seq<char>) -> bool {
    exists|i: int| 0 <= i < values.len() && text_matches(#[trigger] values[i], tag)
}

/// Tags that some value mentions.
pub open spec fn shared_tag(values: Seq<Seq<char>>) -> spec_fn(Seq<char>) -> bool {
    |tag: Seq<char>| mentioned_in(values, tag)
}

/// How well an intent fits what an agent prefers, in percent.
pub open spec fn preference_percent(
    manifest: Option<AgentManifestView>,
    intent: AgentIntentView,
) -> u64 {
    match manifest {
        None => 50,
        Some(m) => {
            let shared = intent.tags.filter(shared_tag(declared(m))).len();
            if shared == 0 {
                50
            } else if shared >= 4 {
                100
            } else {
                (65 + 10 * shared) as u64
            }
        },
    }
}

/// Whether a value mentions a tag, in either case of letters.
pub fn social_text_matches(value: &str, tag: &str) -> (r: bool)
    ensures
        r == text_matches(value@, tag@),
{
    let hay = text::lower_text(value);
    let needle = text::lower_text(tag);
    text::contains_text(hay.as_str(), needle.as_str())
}

fn any_mentions(values: &Vec<String>, tag: &str) -> (r: bool)
    ensures
        r == mentioned_in(values.deep_view(), tag@),
{
    let ghost all = values.deep_view();
    let mut i: usize = 0;
    while i < values.len()
        invariant
            i <= values@.len(),
            all == values.deep_view(),
            forall|j: int| 0 <= j < i ==> !text_matches(#[trigger] all[j], tag@),
        decreases values@.len() - i,
    {
        if social_text_matches(values[i].as_str(), tag) {
            assert(text_matches(values.deep_view()[i as int], tag@));
            return true;
        }
        i = i + 1;
    }
    false
}

proof fn lemma_mentioned(m: AgentManifestView, tag: Seq<char>)
    ensures
        mentioned_in(declared(m), tag) == (mentioned_in(m.goals, tag) || mentioned_in(
            m.values,
            tag,
        ) || mentioned_in(m.preferences, tag) || mentioned_in(m.workspace_roles, tag)),
{
    lemma_mentioned_concat(m.goals, m.values, tag);
    lemma_mentioned_concat(m.goals + m.values, m.preferences, tag);
    lemma_mentioned_concat(m.goals + m.values + m.preferences, m.workspace_roles, tag);
}

proof fn lemma_mentioned_concat(a: Seq<Seq<char>>, b: Seq<Seq<char>>, tag: Seq<char>)
    ensures
        mentioned_in(a + b, tag) == (mentioned_in(a, tag) || mentioned_in(b, tag)),
{
    let all = a + b;
    if mentioned_in(a, tag) {
        let i = choose|i: int| 0 <= i < a.len() && text_matches(#[trigger] a[i], tag);
        assert(all[i] == a[i]);
    }
    if mentioned_in(b, tag) {
        let i = choose|i: int| 0 <= i < b.len() && text_matches(#[trigger] b[i], tag);
        assert(all[a.len() + i] == b[i]);
    }
    if mentioned_in(all, tag) {
        let i = choose|i: int| 0 <= i < all.len() && text_matches(#[trigger] all[i], tag);
        if i < a.len() {
            assert(a[i] == all[i]);
        } else {
            assert(b[i - a.len()] == all[i]);
        }
    }
}

fn tag_is_shared(m: &AgentManifest, tag: &str) -> (r: bool)
    ensures
        r == mentioned_in(declared(m.deep_view()), tag@),
{
    proof {
        lemma_mentioned(m.deep_view(), tag@);
    }
    any_mentions(&m.goals, tag) || any_mentions(&m.values, tag) || any_mentions(
        &m.preferences,
        tag,
    ) || any_mentions(&m.workspace_roles, tag)
}

fn intent_preference_score(manifest: Option<&AgentManifest>, intent: &AgentIntent) -> (r: u64)
    ensures
        r == preference_percent(manifest.deep_view(), intent.deep_view()),
{
    match manifest {
        None => 50,
        Some(m) => {
            let mut tags: Vec<&String> = Vec::new();
            while tags.len() < intent.tags.len()
                invariant
                    tags@.len() <= intent.tags@.len(),
                    forall|j: int|
                        0 <= j < tags@.len() ==> (#[trigger] tags@[j]).deep_view()
                            == intent.tags.deep_view()[j],
                decreases intent.tags@.len() - tags@.len(),
            {
                tags.push(&intent.tags[tags.len()]);
            }
            assert(tags.deep_view() =~= intent.tags.deep_view());
            let keep = |tag: &String| -> (b: bool)
                ensures
                    b == shared_tag(declared(m.deep_view()))(tag.deep_view()),
                { tag_is_shared(m, tag.as_str()) };
            let shared = order::kept(tags, keep, Ghost(shared_tag(declared(m.deep_view())))).len();
            if shared == 0 {
                50
            } else if shared >= 4 {
                100
            } else {
                65 + 10 * (shared as u64)
            }
        },
    }
}

/// Whether an agent has answered an intent.
pub open spec fn answered(responses: Seq<IntentResponseView>, agent: Seq<char>) -> bool {
    exists|i: int| 0 <= i < responses.len() && (#[trigger] responses[i]).responder == agent
}

/// The responses to an intent.
pub open spec fn responses_to(v: SocietyView, intent_id: Seq<char>) -> Seq<IntentResponseView> {
    order::listed(v.intent_responses, answers(intent_id), by_response())
}

/// Whether an intent is worth considering: someone else's, not expired, by
/// nobody whom the agent blocks or who forked their chain, and not yet answered
/// by the agent.
pub open spec fn considered(
    v: SocietyView,
    agent: Seq<char>,
    now: Option<u64>,
    intent: AgentIntentView,
) -> bool {
    &&& intent.author != agent
    &&& !(now matches Some(t) && intent.expires_at matches Some(end) && end <= t)
    &&& !blocks(v, agent, intent.author)
    &&& !forked(v, intent.author)
    &&& !answered(responses_to(v, intent.id), agent)
}

/// What is known of an intent from the view of an agent.
pub open spec fn intent_facts(v: SocietyView, agent: Seq<char>, intent: AgentIntentView) -> IntentFactsView {
    let manifest = table::find(v.manifests, agent);
    let responses = responses_to(v, intent.id);
    IntentFactsView {
        intent,
        author_name: match table::find(v.manifests, intent.author) {
            Some(m) => Some(m.name),
            None => None,
        },
        edge: table::find(v.edges, (agent, intent.author)),
        capability_score: capability_percent(manifest, intent),
        workspace_score: workspace_percent(
            order::sort_by_key(places(v.presence, agent), by_place()),
            intent,
        ),
        response_score: response_percent(responses),
        preference_score: preference_percent(manifest, intent),
        response_count: responses.len() as usize,
        fulfilled: responses.filter(of_kind(IntentResponseKind::Fulfilled)).len() > 0,
    }
}

/// The facts of the intents that are worth considering.
pub open spec fn intents_worth(
    v: SocietyView,
    agent: Seq<char>,
    now: Option<u64>,
    intents: Seq<AgentIntentView>,
) -> Seq<IntentFactsView>
    decreases intents.len(),
{
    if intents.len() == 0 {
        Seq::empty()
    } else {
        let rest = intents_worth(v, agent, now, intents.drop_last());
        if considered(v, agent, now, intents.last()) {
            rest.push(intent_facts(v, agent, intents.last()))
        } else {
            rest
        }
    }
}

fn has_answered(responses: &Vec<&IntentResponse>, agent: &Did) -> (r: bool)
    ensures
        r == answered(responses.deep_view(), agent.deep_view()),
{
    let ghost all = responses.deep_view();
    let mut i: usize = 0;
    while i < responses.len()
        invariant
            i <= responses@.len(),
            all == responses.deep_view(),
            forall|j: int| 0 <= j < i ==> (#[trigger] all[j]).responder != agent.deep_view(),
        decreases responses@.len() - i,
    {
        if responses[i].responder.same(agent) {
            assert(responses.deep_view()[i as int].responder == agent.deep_view());
            return true;
        }
        i = i + 1;
    }
    false
}

fn worth_considering(society: &Society, agent: &Did, now: Option<u64>, intent: &AgentIntent) -> (r:
    bool)
    ensures
        r == considered(
            society.deep_view(),
            agent.deep_view(),
            now,
            intent.deep_view(),
        ),
{
    if intent.author.same(agent) {
        return false;
    }
    if let (Some(t), Some(end)) = (now, intent.expires_at) {
        if end <= t {
            return false;
        }
    }
    if is_blocked(society, agent, &intent.author) {
        return false;
    }
    if society.is_equivocating(&intent.author) {
        return false;
    }
    let responses = society.responses_for_intent(intent.id.as_str());
    !has_answered(&responses, agent)
}

fn facts_of(society: &Society, agent: &Did, workspaces: &Vec<WorkspaceId>, intent: &AgentIntent) -> (r:
    IntentFacts)
    requires
        workspaces.deep_view() == order::sort_by_key(
            places(society.deep_view().presence, agent.deep_view()),
            by_place(),
        ),
    ensures
        r.deep_view() == intent_facts(
            society.deep_view(),
            agent.deep_view(),
            intent.deep_view(),
        ),
{
    let manifest = society.agent_manifest(agent);
    let responses = society.responses_for_intent(intent.id.as_str());
    let fulfilled = count_kind(&responses, IntentResponseKind::Fulfilled) > 0;
    let response_score = intent_response_score(&responses);
    IntentFacts {
        intent: intent.twin(),
        author_name: match society.agent_manifest(&intent.author) {
            Some(m) => Some(m.name.twin()),
            None => None,
        },
        edge: match society.edge(agent, &intent.author) {
            Some(edge) => Some(edge.twin()),
            None => None,
        },
        capability_score: intent_capability_score(manifest, intent),
        workspace_score: intent_workspace_score(workspaces, intent),
        response_score,
        preference_score: intent_preference_score(manifest, intent),
        response_count: responses.len(),
        fulfilled,
    }
}

/// The intents that an agent may consider, with what is known of them.
pub fn intent_candidates(society: &Society, agent: &Did, now: Option<u64>) -> (r: Vec<IntentFacts>)
    ensures
        r.deep_view() == considered_intents(society.deep_view(), agent.deep_view(), now),
{
    let ghost v = society.deep_view();
    let ghost who = agent.deep_view();
    let workspaces = society.agent_workspaces(agent);
    let intents = society.intents();
    let ghost all = intents.deep_view();
    let mut r: Vec<IntentFacts> = Vec::new();
    let mut i: usize = 0;
    assert(r.deep_view() =~= Seq::<IntentFactsView>::empty());
    while i < intents.len()
        invariant
            i <= intents@.len(),
            all == intents.deep_view(),
            v == society.deep_view(),
            who == agent.deep_view(),
            workspaces.deep_view() == order::sort_by_key(places(v.presence, who), by_place()),
            r.deep_view() == intents_worth(v, who, now, all.subrange(0, i as int)),
        decreases intents@.len() - i,
    {
        proof {
            let upto = all.subrange(0, i + 1);
            assert(upto.drop_last() =~= all.subrange(0, i as int));
            assert(upto.last() == intents@[i as int].deep_view());
        }
        let ghost before = r.deep_view();
        let intent = intents[i];
        if worth_considering(society, agent, now, intent) {
            let facts = facts_of(society, agent, &workspaces, intent);
            let ghost added = facts.deep_view();
            r.push(facts);
            assert(r.deep_view() =~= before.push(added));
        }
        i = i + 1;
    }
    assert(all.subrange(0, i as int) =~= all);
    r
}

/// How an agent would respond to an intent.
pub open spec fn response_kind(capability_score: u64, kind: IntentKind) -> IntentResponseKind {
    if capability_score >= 75 {
        IntentResponseKind::Interested
    } else if kind == IntentKind::Offer || kind == IntentKind::Proposal {
        IntentResponseKind::Counter
    } else {
        IntentResponseKind::Decline
    }
}

/// The name that an agent goes by.
pub open spec fn known_as(manifest: Option<AgentManifestView>) -> Seq<char> {
    match manifest {
        Some(m) => m.name,
        None => "this agent"@,
    }
}

/// The title of a response.
pub open spec fn response_title(kind: IntentResponseKind) -> Seq<char> {
    match kind {
        IntentResponseKind::Interested => "Respond with interest"@,
        IntentResponseKind::Counter => "Open a counter-proposal"@,
        IntentResponseKind::Decline => "Decline this intent"@,
        IntentResponseKind::Accept => "Accept this intent"@,
        IntentResponseKind::Fulfilled => "Mark intent fulfilled"@,
    }
}

/// The body of a response.
pub open spec fn response_body(
    manifest: Option<AgentManifestView>,
    intent: AgentIntentView,
    kind: IntentResponseKind,
) -> Seq<char> {
    match kind {
        IntentResponseKind::Interested => match intent.capability {
            Some(capability) => known_as(manifest) + " can help with "@ + capability + ": "@
                + intent.title,
            None => known_as(manifest) + " is interested in this intent: "@ + intent.title,
        },
        IntentResponseKind::Counter => "Counter-proposal requested before acting on: "@
            + intent.title,
        IntentResponseKind::Decline =>
            "Declining for now because this intent is not a strong local match: "@ + intent.title,
        IntentResponseKind::Accept => "Accepting intent: "@ + intent.title,
        IntentResponseKind::Fulfilled => "Intent fulfilled: "@ + intent.title,
    }
}

/// The body of an offer.
pub open spec fn offer_body(manifest: Option<AgentManifestView>, intent: AgentIntentView) -> Seq<char> {
    match intent.capability {
        Some(capability) => known_as(manifest) + " can offer "@ + capability + " for intent "@
            + intent.id,
        None => known_as(manifest) + " can offer work for intent "@ + intent.id,
    }
}

/// The price that an agent declares for what an intent needs.
pub open spec fn declared_price(
    manifest: Option<AgentManifestView>,
    intent: AgentIntentView,
) -> Option<u64> {
    match (manifest, intent.capability) {
        (Some(m), Some(capability)) => match first_named(m.provides, capability) {
            Some(decl) => Some(decl.price_per_unit),
            None => None,
        },
        _ => None,
    }
}

/// A plan with nothing but what all plans on an intent share.
pub open spec fn bare_plan(
    actor: Seq<char>,
    intent: AgentIntentView,
    kind: IntentActionKind,
    hint: Seq<char>,
    title: Seq<char>,
    body: Seq<char>,
    confidence: Score,
) -> IntentActionPlanView {
    IntentActionPlanView {
        kind,
        event_hint: hint,
        intent_id: intent.id,
        actor,
        peer: intent.author,
        title,
        body,
        confidence,
        workspace: intent.workspace,
        task_id: intent.task_id,
        capability: intent.capability,
        response_kind: None,
        suggested_price: None,
        estimated_time_secs: None,
    }
}

/// The plan to respond.
pub open spec fn respond_plan(
    actor: Seq<char>,
    manifest: Option<AgentManifestView>,
    f: IntentFactsView,
    s: IntentScoresView,
) -> IntentActionPlanView {
    let kind = response_kind(f.capability_score, f.intent.kind);
    IntentActionPlanView {
        response_kind: Some(kind),
        ..bare_plan(
            actor,
            f.intent,
            IntentActionKind::RespondIntent,
            "event intent-response"@,
            response_title(kind),
            response_body(manifest, f.intent, kind),
            s.respond,
        )
    }
}

/// The plan to offer work on the task of the intent.
pub open spec fn offer_plan(
    actor: Seq<char>,
    manifest: Option<AgentManifestView>,
    f: IntentFactsView,
    s: IntentScoresView,
) -> IntentActionPlanView {
    IntentActionPlanView {
        suggested_price: declared_price(manifest, f.intent),
        estimated_time_secs: Some(0),
        ..bare_plan(
            actor,
            f.intent,
            IntentActionKind::OfferTask,
            "event task-offer"@,
            "Offer to execute the referenced task"@,
            offer_body(manifest, f.intent),
            s.offer,
        )
    }
}

/// The plan to join the workspace of the intent.
pub open spec fn join_plan(
    actor: Seq<char>,
    f: IntentFactsView,
    s: IntentScoresView,
) -> IntentActionPlanView {
    bare_plan(
        actor,
        f.intent,
        IntentActionKind::JoinWorkspace,
        "event workspace-join"@,
        "Join the referenced workspace"@,
        "Publish presence in the workspace before deeper collaboration"@,
        s.join,
    )
}

/// The plan to put the intent before a collective.
pub open spec fn propose_plan(
    actor: Seq<char>,
    f: IntentFactsView,
    s: IntentScoresView,
) -> IntentActionPlanView {
    bare_plan(
        actor,
        f.intent,
        IntentActionKind::ProposeCollective,
        "event collective-proposal"@,
        "Escalate to collective proposal"@,
        "Coordinate around intent "@ + f.intent.id + ": "@ + f.intent.title,
        s.propose,
    )
}

/// One plan where there is reason for it.
pub open spec fn when(reason: bool, plan: IntentActionPlanView) -> Seq<IntentActionPlanView> {
    if reason {
        seq![plan]
    } else {
        Seq::empty()
    }
}

/// The plans for an intent, most confident first. A fulfilled one needs none; an
/// offer needs the capability and a task, joining a workspace that the agent is
/// not in, and a collective an open goal or proposal that fits.
pub open spec fn action_plans(
    actor: Seq<char>,
    manifest: Option<AgentManifestView>,
    f: IntentFactsView,
    s: IntentScoresView,
) -> Seq<IntentActionPlanView> {
    if f.fulfilled {
        Seq::empty()
    } else {
        order::sort_by_key(
            seq![respond_plan(actor, manifest, f, s)] + when(
                f.capability_score >= 75 && f.intent.task_id is Some,
                offer_plan(actor, manifest, f, s),
            ) + when(
                f.intent.workspace is Some && f.workspace_score < 100,
                join_plan(actor, f, s),
            ) + when(
                (f.intent.kind == IntentKind::Proposal || f.intent.kind == IntentKind::Goal)
                    && f.preference_score >= 60 && f.response_count == 0,
                propose_plan(actor, f, s),
            ),
            by_confidence(),
        )
    }
}

fn name_of(manifest: Option<&AgentManifest>) -> (r: String)
    ensures
        r@ == known_as(manifest.deep_view()),
{
    match manifest {
        Some(m) => m.name.twin(),
        None => text::owned("this agent"),
    }
}

fn pick_response(capability_score: u64, kind: IntentKind) -> (r: IntentResponseKind)
    ensures
        r == response_kind(capability_score, kind),
{
    if capability_score >= 75 {
        IntentResponseKind::Interested
    } else if kind == IntentKind::Offer || kind == IntentKind::Proposal {
        IntentResponseKind::Counter
    } else {
        IntentResponseKind::Decline
    }
}

fn title_for(kind: IntentResponseKind) -> (r: String)
    ensures
        r@ == response_title(kind),
{
    match kind {
        IntentResponseKind::Interested => text::owned("Respond with interest"),
        IntentResponseKind::Counter => text::owned("Open a counter-proposal"),
        IntentResponseKind::Decline => text::owned("Decline this intent"),
        IntentResponseKind::Accept => text::owned("Accept this intent"),
        IntentResponseKind::Fulfilled => text::owned("Mark intent fulfilled"),
    }
}

fn response_body_for_intent(
    manifest: Option<&AgentManifest>,
    intent: &AgentIntent,
    kind: IntentResponseKind,
) -> (r: String)
    ensures
        r@ == response_body(manifest.deep_view(), intent.deep_view(), kind),
{
    let title = intent.title.as_str();
    match kind {
        IntentResponseKind::Interested => {
            let name = name_of(manifest);
            match &intent.capability {
                Some(capability) => {
                    let s = text::joined_pair(name.as_str(), " can help with ");
                    let s = text::joined_pair(s.as_str(), capability.as_str());
                    let s = text::joined_pair(s.as_str(), ": ");
                    text::joined_pair(s.as_str(), title)
                },
                None => {
                    let s = text::joined_pair(name.as_str(), " is interested in this intent: ");
                    text::joined_pair(s.as_str(), title)
                },
            }
        },
        IntentResponseKind::Counter => text::joined_pair(
            "Counter-proposal requested before acting on: ",
            title,
        ),
        IntentResponseKind::Decline => text::joined_pair(
            "Declining for now because this intent is not a strong local match: ",
            title,
        ),
        IntentResponseKind::Accept => text::joined_pair("Accepting intent: ", title),
        IntentResponseKind::Fulfilled => text::joined_pair("Intent fulfilled: ", title),
    }
}

fn task_offer_body_for_intent(manifest: Option<&AgentManifest>, intent: &AgentIntent) -> (r: String)
    ensures
        r@ == offer_body(manifest.deep_view(), intent.deep_view()),
{
    let name = name_of(manifest);
    match &intent.capability {
        Some(capability) => {
            let s = text::joined_pair(name.as_str(), " can offer ");
            let s = text::joined_pair(s.as_str(), capability.as_str());
            let s = text::joined_pair(s.as_str(), " for intent ");
            text::joined_pair(s.as_str(), intent.id.as_str())
        },
        None => {
            let s = text::joined_pair(name.as_str(), " can offer work for intent ");
            text::joined_pair(s.as_str(), intent.id.as_str())
        },
    }
}

fn price_for(manifest: Option<&AgentManifest>, intent: &AgentIntent) -> (r: Option<u64>)
    ensures
        r == declared_price(manifest.deep_view(), intent.deep_view()),
{
    match (manifest, &intent.capability) {
        (Some(m), Some(capability)) => match m.find_provided(capability.as_str()) {
            Some(decl) => Some(decl.price_per_unit),
            None => None,
        },
        _ => None,
    }
}

fn plan_of(
    actor: &Did,
    intent: &AgentIntent,
    kind: IntentActionKind,
    hint: &str,
    title: String,
    body: String,
    confidence: Score,
) -> (r: IntentActionPlan)
    ensures
        r.deep_view() == bare_plan(
            actor.deep_view(),
            intent.deep_view(),
            kind,
            hint@,
            title@,
            body@,
            confidence,
        ),
{
    IntentActionPlan {
        kind,
        event_hint: text::owned(hint),
        intent_id: intent.id.twin(),
        actor: actor.twin(),
        peer: intent.author.twin(),
        title,
        body,
        confidence,
        workspace: intent.workspace.twin(),
        task_id: intent.task_id.twin(),
        capability: intent.capability.twin(),
        response_kind: None,
        suggested_price: None,
        estimated_time_secs: None,
    }
}

fn add_when(plans: &mut Vec<IntentActionPlan>, reason: bool, plan: IntentActionPlan)
    ensures
        final(plans).deep_view() == old(plans).deep_view() + when(reason, plan.deep_view()),
{
    let ghost before = plans.deep_view();
    if reason {
        plans.push(plan);
        assert(plans.deep_view() =~= before + seq![plan.deep_view()]);
    } else {
        assert(before + Seq::<IntentActionPlanView>::empty() =~= before);
    }
}

/// The plans for an intent, most confident first.
pub fn intent_action_plans(
    actor: &Did,
    manifest: Option<&AgentManifest>,
    facts: &IntentFacts,
    scores: &IntentScores,
) -> (r: Vec<IntentActionPlan>)
    ensures
        r.deep_view() == action_plans(
            actor.deep_view(),
            manifest.deep_view(),
            facts.deep_view(),
            scores.deep_view(),
        ),
{
    let mut plans: Vec<IntentActionPlan> = Vec::new();
    if facts.fulfilled {
        assert(plans.deep_view() =~= Seq::<IntentActionPlanView>::empty());
        return plans;
    }
    let intent = &facts.intent;
    let kind = pick_response(facts.capability_score, intent.kind);
    let mut respond = plan_of(
        actor,
        intent,
        IntentActionKind::RespondIntent,
        "event intent-response",
        title_for(kind),
        response_body_for_intent(manifest, intent, kind),
        scores.respond,
    );
    respond.response_kind = Some(kind);
    let ghost first = respond.deep_view();
    plans.push(respond);
    assert(plans.deep_view() =~= seq![first]);
    let mut offer = plan_of(
        actor,
        intent,
        IntentActionKind::OfferTask,
        "event task-offer",
        text::owned("Offer to execute the referenced task"),
        task_offer_body_for_intent(manifest, intent),
        scores.offer,
    );
    offer.suggested_price = price_for(manifest, intent);
    offer.estimated_time_secs = Some(0);
    add_when(
        &mut plans,
        facts.capability_score >= 75 && intent.task_id.is_some(),
        offer,
    );
    let join = plan_of(
        actor,
        intent,
        IntentActionKind::JoinWorkspace,
        "event workspace-join",
        text::owned("Join the referenced workspace"),
        text::owned("Publish presence in the workspace before deeper collaboration"),
        scores.join,
    );
    add_when(&mut plans, intent.workspace.is_some() && facts.workspace_score < 100, join);
    let body = text::joined_pair("Coordinate around intent ", intent.id.as_str());
    let body = text::joined_pair(body.as_str(), ": ");
    let body = text::joined_pair(body.as_str(), intent.title.as_str());
    let propose = plan_of(
        actor,
        intent,
        IntentActionKind::ProposeCollective,
        "event collective-proposal",
        text::owned("Escalate to collective proposal"),
        body,
        scores.propose,
    );
    add_when(
        &mut plans,
        (intent.kind == IntentKind::Proposal || intent.kind == IntentKind::Goal)
            && facts.preference_score >= 60 && facts.response_count == 0,
        propose,
    );
    let mut keys: Vec<Vec<KeyPart>> = Vec::new();
    while keys.len() < plans.len()
        invariant
            keys@.len() <= plans@.len(),
            forall|j: int|
                0 <= j < keys@.len() ==> (#[trigger] keys@[j]).deep_view() == by_confidence()(
                    plans@[j].deep_view(),
                ),
        decreases plans@.len() - keys@.len(),
    {
        let key = by_confidence_of(&plans[keys.len()]);
        keys.push(key);
    }
    order::sort_keyed(plans, keys, Ghost(by_confidence()))
}

/// One reason where it applies.
pub open spec fn because(applies: bool, reason: Seq<char>) -> Seq<Seq<char>> {
    if applies {
        seq![reason]
    } else {
        Seq::empty()
    }
}

/// Why an intent is recommended.
pub open spec fn intent_reasons(f: IntentFactsView, s: IntentScoresView) -> Seq<Seq<char>> {
    (match f.intent.capability {
        Some(capability) => because(
            f.capability_score >= 90,
            "capability:"@ + capability,
        ) + because(f.capability_score <= 25, "capability-gap:"@ + capability),
        None => Seq::empty(),
    }) + because(
        f.intent.workspace is Some && f.workspace_score >= 100,
        "shared-workspace"@,
    ) + because(
        f.intent.workspace is Some && f.workspace_score <= 35,
        "new-workspace"@,
    ) + because(s.social.bits >= TRUSTED, "trusted-author"@) + because(
        s.reputation.bits >= TRUSTED,
        "positive-history"@,
    ) + because(f.preference_score > 50, "preference-match"@) + because(
        f.response_count == 0,
        "unanswered"@,
    ) + because(
        f.response_count != 0,
        "responses:"@ + text::decimal(f.response_count as nat),
    ) + because(f.fulfilled, "fulfilled"@)
}

fn add_because(reasons: &mut Vec<String>, applies: bool, reason: String)
    ensures
        final(reasons).deep_view() == old(reasons).deep_view() + because(applies, reason@),
{
    let ghost before = reasons.deep_view();
    if applies {
        reasons.push(reason);
        assert(reasons.deep_view() =~= before + seq![reason@]);
    } else {
        assert(before + Seq::<Seq<char>>::empty() =~= before);
    }
}

/// Why an intent is recommended.
pub fn intent_recommendation_reasons(facts: &IntentFacts, scores: &IntentScores) -> (r: Vec<String>)
    ensures
        r.deep_view() == intent_reasons(facts.deep_view(), scores.deep_view()),
{
    let mut r: Vec<String> = Vec::new();
    assert(r.deep_view() =~= Seq::<Seq<char>>::empty());
    match &facts.intent.capability {
        Some(capability) => {
            let fit = text::joined_pair("capability:", capability.as_str());
            let gap = text::joined_pair("capability-gap:", capability.as_str());
            add_because(&mut r, facts.capability_score >= 90, fit);
            assert(r.deep_view() =~= because(
                facts.capability_score >= 90,
                "capability:"@ + capability@,
            ));
            add_because(&mut r, facts.capability_score <= 25, gap);
        },
        None => {},
    }
    let placed = facts.intent.workspace.is_some();
    add_because(
        &mut r,
        placed && facts.workspace_score >= 100,
        text::owned("shared-workspace"),
    );
    add_because(&mut r, placed && facts.workspace_score <= 35, text::owned("new-workspace"));
    add_because(&mut r, scores.social.bits >= TRUSTED, text::owned("trusted-author"));
    add_because(&mut r, scores.reputation.bits >= TRUSTED, text::owned("positive-history"));
    add_because(&mut r, facts.preference_score > 50, text::owned("preference-match"));
    add_because(&mut r, facts.response_count == 0, text::owned("unanswered"));
    let count = text::decimal_text(facts.response_count as u64);
    let some = text::joined_pair("responses:", count.as_str());
    add_because(&mut r, facts.response_count != 0, some);
    add_because(&mut r, facts.fulfilled, text::owned("fulfilled"));
    r
}

/// The recommendation of an intent.
pub open spec fn recommended_intent(
    agent: Seq<char>,
    manifest: Option<AgentManifestView>,
    f: IntentFactsView,
    s: IntentScoresView,
) -> IntentRecommendationView {
    IntentRecommendationView {
        intent: f.intent,
        author_name: f.author_name,
        capability_score: f.capability_score,
        workspace_score: f.workspace_score,
        social_score: s.social,
        reputation_score: s.reputation,
        response_score: f.response_score,
        preference_score: f.preference_score,
        response_count: f.response_count,
        fulfilled: f.fulfilled,
        ranking_score: s.ranking,
        reasons: intent_reasons(f, s),
        actions: action_plans(agent, manifest, f, s),
    }
}

/// Recommends an intent to an agent.
pub fn recommend_intent(
    agent: &Did,
    manifest: Option<&AgentManifest>,
    facts: IntentFacts,
    scores: &IntentScores,
) -> (r: IntentRecommendation)
    ensures
        r.deep_view() == recommended_intent(
            agent.deep_view(),
            manifest.deep_view(),
            facts.deep_view(),
            scores.deep_view(),
        ),
{
    let reasons = intent_recommendation_reasons(&facts, scores);
    let actions = intent_action_plans(agent, manifest, &facts, scores);
    IntentRecommendation {
        intent: facts.intent,
        author_name: facts.author_name,
        capability_score: facts.capability_score,
        workspace_score: facts.workspace_score,
        social_score: scores.social,
        reputation_score: scores.reputation,
        response_score: facts.response_score,
        preference_score: facts.preference_score,
        response_count: facts.response_count,
        fulfilled: facts.fulfilled,
        ranking_score: scores.ranking,
        reasons,
        actions,
    }
}

/// The best recommendations of intents, at most so many.
pub fn rank_intents(all: Vec<IntentRecommendation>, limit: usize) -> (r: Vec<IntentRecommendation>)
    ensures
        r.deep_view() == at_most(order::sort_by_key(all.deep_view(), by_intent_rank()), limit),
{
    let mut keys: Vec<Vec<KeyPart>> = Vec::new();
    while keys.len() < all.len()
        invariant
            keys@.len() <= all@.len(),
            forall|j: int|
                0 <= j < keys@.len() ==> (#[trigger] keys@[j]).deep_view() == by_intent_rank()(
                    all@[j].deep_view(),
                ),
        decreases all@.len() - keys@.len(),
    {
        let key = by_intent_rank_of(&all[keys.len()]);
        keys.push(key);
    }
    let mut sorted = order::sort_keyed(all, keys, Ghost(by_intent_rank()));
    let ghost whole = sorted.deep_view();
    if sorted.len() > limit {
        sorted.truncate(limit);
        assert(sorted.deep_view() =~= whole.subrange(0, limit as int));
    }
    sorted
}

/// The best recommendations of providers, at most so many.
pub fn rank_providers(all: Vec<ProviderRecommendation>, limit: usize) -> (r: Vec<ProviderRecommendation>)
    ensures
        r.deep_view() == at_most(order::sort_by_key(all.deep_view(), by_provider_rank()), limit),
{
    let mut keys: Vec<Vec<KeyPart>> = Vec::new();
    while keys.len() < all.len()
        invariant
            keys@.len() <= all@.len(),
            forall|j: int|
                0 <= j < keys@.len() ==> (#[trigger] keys@[j]).deep_view() == by_provider_rank()(
                    all@[j].deep_view(),
                ),
        decreases all@.len() - keys@.len(),
    {
        let key = by_provider_rank_of(&all[keys.len()]);
        keys.push(key);
    }
    let mut sorted = order::sort_keyed(all, keys, Ghost(by_provider_rank()));
    let ghost whole = sorted.deep_view();
    if sorted.len() > limit {
        sorted.truncate(limit);
        assert(sorted.deep_view() =~= whole.subrange(0, limit as int));
    }
    sorted
}

/// Whether a manifest is a candidate: it declares the capability, its agent has
/// forked no chain, and the requester does not block it.
pub open spec fn eligible(
    v: SocietyView,
    requester: Option<Seq<char>>,
    capability: Seq<char>,
    m: AgentManifestView,
) -> bool {
    &&& first_named(m.provides, capability) is Some
    &&& !forked(v, m.did)
    &&& requester matches Some(who) ==> !blocks(v, who, m.did)
}

/// Whether a collective accepted something with an anchor.
pub open spec fn anchored_acceptance(signals: Seq<GovernanceSignalView>) -> bool {
    exists|i: int|
        0 <= i < signals.len() && (#[trigger] signals[i]).truth_status == FactTruthStatus::Anchored
            && signals[i].outcome == CollectiveDecisionOutcome::Accepted
}

/// What is known of a provider from the view of a requester.
pub open spec fn provider_facts(
    v: SocietyView,
    requester: Option<Seq<char>>,
    capability: Seq<char>,
    m: AgentManifestView,
) -> ProviderFactsView {
    let decl = first_named(m.provides, capability)->Some_0;
    let signals = signals_for(v, m.did, 5);
    ProviderFactsView {
        did: m.did,
        name: m.name,
        capability: decl,
        edge: match requester {
            Some(who) => table::find(v.edges, (who, m.did)),
            None => None,
        },
        governance_signals: signals,
        verified_capability: evidence_named(
            task_market::verified_capabilities(v.market, m.did),
            decl.name,
        ),
        witnessed: anchored_acceptance(signals),
    }
}

/// The facts of the candidates among manifests.
pub open spec fn providers_among(
    v: SocietyView,
    requester: Option<Seq<char>>,
    capability: Seq<char>,
    manifests: Seq<AgentManifestView>,
) -> Seq<ProviderFactsView>
    decreases manifests.len(),
{
    if manifests.len() == 0 {
        Seq::empty()
    } else {
        let rest = providers_among(v, requester, capability, manifests.drop_last());
        if eligible(v, requester, capability, manifests.last()) {
            rest.push(provider_facts(v, requester, capability, manifests.last()))
        } else {
            rest
        }
    }
}

fn has_anchored_witness(signals: &Vec<GovernanceSignal>) -> (r: bool)
    ensures
        r == anchored_acceptance(signals.deep_view()),
{
    let ghost all = signals.deep_view();
    let mut i: usize = 0;
    while i < signals.len()
        invariant
            i <= signals@.len(),
            all == signals.deep_view(),
            forall|j: int|
                0 <= j < i ==> !((#[trigger] all[j]).truth_status == FactTruthStatus::Anchored
                    && all[j].outcome == CollectiveDecisionOutcome::Accepted),
        decreases signals@.len() - i,
    {
        if signals[i].truth_status == FactTruthStatus::Anchored && signals[i].outcome
            == CollectiveDecisionOutcome::Accepted {
            assert(signals.deep_view()[i as int].truth_status == FactTruthStatus::Anchored);
            return true;
        }
        i = i + 1;
    }
    false
}

fn provider_of(
    society: &Society,
    requester: Option<&Did>,
    capability: &str,
    manifest: &AgentManifest,
) -> (r: Option<ProviderFacts>)
    ensures
        r.deep_view() == (if eligible(
            society.deep_view(),
            requester.deep_view(),
            capability@,
            manifest.deep_view(),
        ) {
            Some(
                provider_facts(
                    society.deep_view(),
                    requester.deep_view(),
                    capability@,
                    manifest.deep_view(),
                ),
            )
        } else {
            None
        }),
{
    match manifest.find_provided(capability) {
        None => None,
        Some(decl) => {
            if society.is_equivocating(&manifest.did) {
                return None;
            }
            let edge = match requester {
                Some(who) => {
                    if is_blocked(society, who, &manifest.did) {
                        return None;
                    }
                    match society.edge(who, &manifest.did) {
                        Some(edge) => Some(edge.twin()),
                        None => None,
                    }
                },
                None => None,
            };
            let governance_signals = society.governance_signals_for(&manifest.did, 5);
            let witnessed = has_anchored_witness(&governance_signals);
            Some(
                ProviderFacts {
                    did: manifest.did.twin(),
                    name: manifest.name.twin(),
                    capability: decl.twin(),
                    edge,
                    governance_signals,
                    verified_capability: society.verified_capability(
                        &manifest.did,
                        decl.name.as_str(),
                    ),
                    witnessed,
                },
            )
        },
    }
}

/// The providers of a capability that may be recommended, with what is known of
/// them. Peers that the requester blocks are left out, and so are those who
/// forked their chain.
pub fn provider_candidates(society: &Society, requester: Option<&Did>, capability: &str) -> (r: Vec<
    ProviderFacts,
>)
    ensures
        r.deep_view() == considered_providers(
            society.deep_view(),
            requester.deep_view(),
            capability@,
        ),
{
    let ghost v = society.deep_view();
    let manifests = society.manifests();
    let ghost all = manifests.deep_view();
    let mut r: Vec<ProviderFacts> = Vec::new();
    let mut i: usize = 0;
    assert(r.deep_view() =~= Seq::<ProviderFactsView>::empty());
    while i < manifests.len()
        invariant
            i <= manifests@.len(),
            all == manifests.deep_view(),
            v == society.deep_view(),
            r.deep_view() == providers_among(
                v,
                requester.deep_view(),
                capability@,
                all.subrange(0, i as int),
            ),
        decreases manifests@.len() - i,
    {
        proof {
            let upto = all.subrange(0, i + 1);
            assert(upto.drop_last() =~= all.subrange(0, i as int));
            assert(upto.last() == manifests@[i as int].deep_view());
        }
        let ghost before = r.deep_view();
        if let Some(facts) = provider_of(society, requester, capability, manifests[i]) {
            let ghost added = facts.deep_view();
            r.push(facts);
            assert(r.deep_view() =~= before.push(added));
        }
        i = i + 1;
    }
    assert(all.subrange(0, i as int) =~= all);
    r
}

/// The highest price among candidates.
pub open spec fn highest_price(all: Seq<ProviderFactsView>) -> u64
    decreases all.len(),
{
    if all.len() == 0 {
        0
    } else {
        let before = highest_price(all.drop_last());
        let price = all.last().capability.price_per_unit;
        if before > price {
            before
        } else {
            price
        }
    }
}

/// The highest price among candidates.
pub fn max_price(all: &Vec<ProviderFacts>) -> (r: u64)
    ensures
        r == highest_price(all.deep_view()),
{
    let ghost list = all.deep_view();
    let mut best: u64 = 0;
    let mut i: usize = 0;
    while i < all.len()
        invariant
            i <= all@.len(),
            list == all.deep_view(),
            best == highest_price(list.subrange(0, i as int)),
        decreases all@.len() - i,
    {
        proof {
            let upto = list.subrange(0, i + 1);
            assert(upto.drop_last() =~= list.subrange(0, i as int));
            assert(upto.last() == all@[i as int].deep_view());
        }
        let price = all[i].capability.price_per_unit;
        if !(best > price) {
            best = price;
        }
        i = i + 1;
    }
    assert(list.subrange(0, i as int) =~= list);
    best
}

/// Whether a provider may be ranked with high confidence: nobody in particular
/// asks, the requester can reach it through trust, or a collective witnessed it.
pub open spec fn trusted_enough(asked: bool, f: ProviderFactsView, s: ProviderScoresView) -> bool {
    !asked || s.reachability.bits > 0 || f.witnessed
}

/// The recommendation of a provider: without ground for trust its ranking is
/// capped.
pub open spec fn recommended_provider(
    asked: bool,
    f: ProviderFactsView,
    s: ProviderScoresView,
) -> ProviderRecommendationView {
    ProviderRecommendationView {
        did: f.did,
        name: f.name,
        capability: f.capability,
        social_score: s.social,
        reputation_score: s.reputation,
        reachability_score: s.reachability,
        high_trust_eligible: trusted_enough(asked, f, s),
        sybil_cluster_score: s.sybil_cluster,
        governance_score: s.governance,
        governance_signals: f.governance_signals,
        verified_capability: f.verified_capability,
        price_per_unit: f.capability.price_per_unit,
        ranking_score: if !trusted_enough(asked, f, s) && s.ranking.bits > CAUTIOUS {
            Score { bits: CAUTIOUS }
        } else {
            s.ranking
        },
    }
}

/// Recommends a provider; `asked` says whether there is a requester.
pub fn recommend_provider(asked: bool, facts: ProviderFacts, scores: &ProviderScores) -> (r:
    ProviderRecommendation)
    ensures
        r.deep_view() == recommended_provider(asked, facts.deep_view(), scores.deep_view()),
{
    let high_trust_eligible = !asked || scores.reachability.bits > 0 || facts.witnessed;
    let ranking_score = if !high_trust_eligible && scores.ranking.bits > CAUTIOUS {
        Score { bits: CAUTIOUS }
    } else {
        scores.ranking
    };
    let price_per_unit = facts.capability.price_per_unit;
    ProviderRecommendation {
        did: facts.did,
        name: facts.name,
        capability: facts.capability,
        social_score: scores.social,
        reputation_score: scores.reputation,
        reachability_score: scores.reachability,
        high_trust_eligible,
        sybil_cluster_score: scores.sybil_cluster,
        governance_score: scores.governance,
        governance_signals: facts.governance_signals,
        verified_capability: facts.verified_capability,
        price_per_unit,
        ranking_score,
    }
}

/// A provider without ground for trust is never ranked above the cap.
pub proof fn lemma_untrusted_ranking_is_capped(
    asked: bool,
    f: ProviderFactsView,
    s: ProviderScoresView,
)
    ensures
        !recommended_provider(asked, f, s).high_trust_eligible ==> recommended_provider(
            asked,
            f,
            s,
        ).ranking_score.bits <= CAUTIOUS,
{
}

/// Nobody whom the requester blocks, and nobody who forked their chain, is
/// among the candidates.
pub proof fn lemma_candidates_are_acceptable(
    v: SocietyView,
    requester: Seq<char>,
    capability: Seq<char>,
    manifests: Seq<AgentManifestView>,
    i: int,
)
    requires
        0 <= i < providers_among(v, Some(requester), capability, manifests).len(),
    ensures
        ({
            let did = providers_among(v, Some(requester), capability, manifests)[i].did;
            !blocks(v, requester, did) && !forked(v, did)
        }),
    decreases manifests.len(),
{
    let front = providers_among(v, Some(requester), capability, manifests.drop_last());
    if i < front.len() {
        lemma_candidates_are_acceptable(v, requester, capability, manifests.drop_last(), i);
    }
}

/// An agent is recommended none of its own intents, none that expired, none that
/// it answered, and none of an author whom it blocks or who forked a chain.
pub proof fn lemma_considered_intents_are_open(
    v: SocietyView,
    agent: Seq<char>,
    now: Option<u64>,
    intents: Seq<AgentIntentView>,
    i: int,
)
    requires
        0 <= i < intents_worth(v, agent, now, intents).len(),
    ensures
        ({
            let intent = intents_worth(v, agent, now, intents)[i].intent;
            &&& intent.author != agent
            &&& now matches Some(t) ==> intent.expires_at matches Some(end) ==> end > t
            &&& !blocks(v, agent, intent.author)
            &&& !forked(v, intent.author)
            &&& !answered(responses_to(v, intent.id), agent)
        }),
    decreases intents.len(),
{
    let front = intents_worth(v, agent, now, intents.drop_last());
    if i < front.len() {
        lemma_considered_intents_are_open(v, agent, now, intents.drop_last(), i);
    }
}

/// Relations of an agent to those whom it does not block and who forked no
/// chain.
pub open spec fn collaborators_of(v: SocietyView, agent: Seq<char>) -> spec_fn(SocialEdgeView) -> bool {
    |e: SocialEdgeView|
        e.from == agent && e.kind != RelationKind::Blocked && !forked(v, e.to)
}

/// A relation and how it is scored.
pub struct ScoredEdge {
    pub score: Score,
    pub edge: SocialEdge,
}

/// The mathematical form of [`ScoredEdge`].
pub struct ScoredEdgeView {
    pub score: Score,
    pub edge: SocialEdgeView,
}

impl DeepView for ScoredEdge {
    type V = ScoredEdgeView;

    open spec fn deep_view(&self) -> ScoredEdgeView {
        ScoredEdgeView { score: self.score, edge: self.edge.deep_view() }
    }
}

/// Relations by score, greatest first, then by peer.
pub open spec fn by_score() -> spec_fn(ScoredEdgeView) -> SortKey {
    |v: ScoredEdgeView|
        seq![
            KeyPartView::Num(order::opposite(v.score.bits as int)),
            KeyPartView::Text(v.edge.to),
        ]
}

fn by_score_of(v: &ScoredEdge) -> (k: Vec<KeyPart>)
    ensures
        k.deep_view() == by_score()(v.deep_view()),
{
    let k = vec![
            KeyPart::Num(order::negated(v.score.bits)),
            KeyPart::Text(v.edge.to.to_string()),
        ];
    assert(k.deep_view() =~= by_score()(v.deep_view()));
    k
}

/// The relations from which collaborators are recommended, by the two agents.
pub fn collaborator_candidates<'a>(society: &'a Society, agent: &Did) -> (r: Vec<&'a SocialEdge>)
    ensures
        r.deep_view() == considered_edges(society.deep_view(), agent.deep_view()),
{
    let ghost test = collaborators_of(society.deep_view(), agent.deep_view());
    let keep = |e: &SocialEdge| -> (b: bool)
        ensures
            b == test(e.deep_view()),
        {
            e.from.same(agent) && e.kind != RelationKind::Blocked && !society.is_equivocating(
                &e.to,
            )
        };
    order::kept(society.edges(), keep, Ghost(test))
}

/// The best scored relations, at most so many.
pub fn rank_collaborators(all: Vec<ScoredEdge>, limit: usize) -> (r: Vec<ScoredEdge>)
    ensures
        r.deep_view() == at_most(order::sort_by_key(all.deep_view(), by_score()), limit),
{
    let mut keys: Vec<Vec<KeyPart>> = Vec::new();
    while keys.len() < all.len()
        invariant
            keys@.len() <= all@.len(),
            forall|j: int|
                0 <= j < keys@.len() ==> (#[trigger] keys@[j]).deep_view() == by_score()(
                    all@[j].deep_view(),
                ),
        decreases all@.len() - keys@.len(),
    {
        let key = by_score_of(&all[keys.len()]);
        keys.push(key);
    }
    let mut sorted = order::sort_keyed(all, keys, Ghost(by_score()));
    let ghost whole = sorted.deep_view();
    if sorted.len() > limit {
        sorted.truncate(limit);
        assert(sorted.deep_view() =~= whole.subrange(0, limit as int));
    }
    sorted
}

/// The recommendations of candidates with their scores, in the same order.
pub open spec fn scored_providers(
    asked: bool,
    facts: Seq<ProviderFactsView>,
    scores: Seq<ProviderScoresView>,
) -> Seq<ProviderRecommendationView> {
    Seq::new(facts.len(), |i: int| recommended_provider(asked, facts[i], scores[i]))
}

/// The recommendations of intents with their scores, in the same order.
pub open spec fn scored_intents(
    v: SocietyView,
    agent: Seq<char>,
    facts: Seq<IntentFactsView>,
    scores: Seq<IntentScoresView>,
) -> Seq<IntentRecommendationView> {
    Seq::new(
        facts.len(),
        |i: int|
            recommended_intent(agent, table::find(v.manifests, agent), facts[i], scores[i]),
    )
}

/// Relations with their scores, in the same order.
pub open spec fn scored_edges(edges: Seq<SocialEdgeView>, scores: Seq<Score>) -> Seq<ScoredEdgeView> {
    Seq::new(edges.len(), |i: int| ScoredEdgeView { score: scores[i], edge: edges[i] })
}

/// The relations of scored relations.
pub open spec fn unscored(all: Seq<ScoredEdgeView>) -> Seq<SocialEdgeView> {
    Seq::new(all.len(), |i: int| all[i].edge)
}

/// The candidates among the providers of a capability.
pub open spec fn considered_providers(
    v: SocietyView,
    requester: Option<Seq<char>>,
    capability: Seq<char>,
) -> Seq<ProviderFactsView> {
    providers_among(v, requester, capability, table::values(v.manifests))
}

/// The candidates among the intents that others published.
pub open spec fn considered_intents(v: SocietyView, agent: Seq<char>, now: Option<u64>) -> Seq<
    IntentFactsView,
> {
    intents_worth(
        v,
        agent,
        now,
        order::listed(v.intents, order::every(), crate::society::by_intent()),
    )
}

/// The candidates among the relations of an agent.
pub open spec fn considered_edges(v: SocietyView, agent: Seq<char>) -> Seq<SocialEdgeView> {
    order::sort_by_key(
        table::values(v.edges).filter(order::every()),
        crate::society::by_pair(),
    ).filter(collaborators_of(v, agent))
}

impl Society {
    fn provider_recommendations(
        &self,
        requester: Option<&Did>,
        capability: &str,
        scores: &Vec<ProviderScores>,
        limit: usize,
    ) -> (r: Vec<ProviderRecommendation>)
        requires
            scores@.len() == considered_providers(
                self.deep_view(),
                requester.deep_view(),
                capability@,
            ).len(),
        ensures
            r.deep_view() == at_most(
                order::sort_by_key(
                    scored_providers(
                        requester is Some,
                        considered_providers(self.deep_view(), requester.deep_view(), capability@),
                        scores.deep_view(),
                    ),
                    by_provider_rank(),
                ),
                limit,
            ),
    {
        let facts = provider_candidates(self, requester, capability);
        let mut all: Vec<ProviderRecommendation> = Vec::new();
        while all.len() < facts.len()
            invariant
                all@.len() <= facts@.len(),
                facts@.len() == scores@.len(),
                forall|j: int|
                    0 <= j < all@.len() ==> (#[trigger] all@[j]).deep_view()
                        == recommended_provider(
                        requester is Some,
                        facts@[j].deep_view(),
                        scores@[j].deep_view(),
                    ),
            decreases facts@.len() - all@.len(),
        {
            let i = all.len();
            all.push(recommend_provider(requester.is_some(), facts[i].twin(), &scores[i]));
        }
        assert(all.deep_view() =~= scored_providers(
            requester is Some,
            facts.deep_view(),
            scores.deep_view(),
        ));
        rank_providers(all, limit)
    }

    /// All providers of a capability, best first, with a score for each
    /// candidate.
    pub fn find_providers(&self, capability: &str, scores: &Vec<ProviderScores>) -> (r: Vec<
        ProviderRecommendation,
    >)
        requires
            scores@.len() == considered_providers(self.deep_view(), None, capability@).len(),
        ensures
            r.deep_view() == order::sort_by_key(
                scored_providers(
                    false,
                    considered_providers(self.deep_view(), None, capability@),
                    scores.deep_view(),
                ),
                by_provider_rank(),
            ),
    {
        proof {
            let all = scored_providers(
                false,
                considered_providers(self.deep_view(), None, capability@),
                scores.deep_view(),
            );
            order::lemma_sort_by_key(all, by_provider_rank());
        }
        let limit = scores.len();
        self.provider_recommendations(None, capability, scores, limit)
    }

    /// The best providers of a capability for a requester, with a score for
    /// each candidate.
    pub fn recommend_providers(
        &self,
        requester: &Did,
        capability: &str,
        scores: &Vec<ProviderScores>,
        limit: usize,
    ) -> (r: Vec<ProviderRecommendation>)
        requires
            scores@.len() == considered_providers(
                self.deep_view(),
                Some(requester.deep_view()),
                capability@,
            ).len(),
        ensures
            r.deep_view() == at_most(
                order::sort_by_key(
                    scored_providers(
                        true,
                        considered_providers(self.deep_view(), Some(requester.deep_view()), capability@),
                        scores.deep_view(),
                    ),
                    by_provider_rank(),
                ),
                limit,
            ),
    {
        self.provider_recommendations(Some(requester), capability, scores, limit)
    }

    /// The best open intents for an agent, with scores for each candidate.
    pub fn recommend_intents(
        &self,
        agent: &Did,
        now: Option<u64>,
        scores: &Vec<IntentScores>,
        limit: usize,
    ) -> (r: Vec<IntentRecommendation>)
        requires
            scores@.len() == considered_intents(self.deep_view(), agent.deep_view(), now).len(),
        ensures
            r.deep_view() == at_most(
                order::sort_by_key(
                    scored_intents(
                        self.deep_view(),
                        agent.deep_view(),
                        considered_intents(self.deep_view(), agent.deep_view(), now),
                        scores.deep_view(),
                    ),
                    by_intent_rank(),
                ),
                limit,
            ),
    {
        let facts = intent_candidates(self, agent, now);
        let manifest = self.agent_manifest(agent);
        let mut all: Vec<IntentRecommendation> = Vec::new();
        while all.len() < facts.len()
            invariant
                all@.len() <= facts@.len(),
                facts@.len() == scores@.len(),
                manifest.deep_view() == table::find(self.deep_view().manifests, agent.deep_view()),
                forall|j: int|
                    0 <= j < all@.len() ==> (#[trigger] all@[j]).deep_view() == recommended_intent(
                        agent.deep_view(),
                        table::find(self.deep_view().manifests, agent.deep_view()),
                        facts@[j].deep_view(),
                        scores@[j].deep_view(),
                    ),
            decreases facts@.len() - all@.len(),
        {
            let i = all.len();
            all.push(recommend_intent(agent, manifest, facts[i].twin(), &scores[i]));
        }
        assert(all.deep_view() =~= scored_intents(
            self.deep_view(),
            agent.deep_view(),
            facts.deep_view(),
            scores.deep_view(),
        ));
        rank_intents(all, limit)
    }

    /// The best collaborators of an agent, with a score for each candidate.
    pub fn recommend_collaborators(&self, agent: &Did, scores: &Vec<Score>, limit: usize) -> (r: Vec<
        SocialEdge,
    >)
        requires
            scores@.len() == considered_edges(self.deep_view(), agent.deep_view()).len(),
        ensures
            r.deep_view() == unscored(
                at_most(
                    order::sort_by_key(
                        scored_edges(
                            considered_edges(self.deep_view(), agent.deep_view()),
                            scores@,
                        ),
                        by_score(),
                    ),
                    limit,
                ),
            ),
    {
        let edges = collaborator_candidates(self, agent);
        let mut all: Vec<ScoredEdge> = Vec::new();
        while all.len() < edges.len()
            invariant
                all@.len() <= edges@.len(),
                edges@.len() == scores@.len(),
                forall|j: int|
                    0 <= j < all@.len() ==> (#[trigger] all@[j]).deep_view() == (ScoredEdgeView {
                        score: scores@[j],
                        edge: edges@[j].deep_view(),
                    }),
            decreases edges@.len() - all@.len(),
        {
            let i = all.len();
            all.push(ScoredEdge { score: scores[i], edge: edges[i].twin() });
        }
        assert(all.deep_view() =~= scored_edges(edges.deep_view(), scores@));
        let ranked = rank_collaborators(all, limit);
        let mut r: Vec<SocialEdge> = Vec::new();
        while r.len() < ranked.len()
            invariant
                r@.len() <= ranked@.len(),
                forall|j: int|
                    0 <= j < r@.len() ==> (#[trigger] r@[j]).deep_view()
                        == ranked@[j].deep_view().edge,
            decreases ranked@.len() - r@.len(),
        {
            r.push(ranked[r.len()].edge.twin());
        }
        assert(r.deep_view() =~= unscored(ranked.deep_view()));
        r
    }
}

} // verus!
