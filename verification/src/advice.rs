//! What the recommendations promise: who is considered, how an intent's fit
//! follows from what an agent declares, and that nothing better is left out.
use crate::facts::{
    AgentIntentView, CollectiveDecisionOutcome, FactTruthStatus, IntentKind, IntentResponseKind,
    IntentResponseView, RelationKind, SocialEdgeView,
};
use crate::manifest::{first_named, lemma_first_named, names, AgentManifestView};
use crate::order::{self, KeyPartView, SortKey};
use crate::recommend::{
    action_plans, at_most, because, blocks, by_confidence, by_intent_rank, by_provider_rank,
    by_score, capability_percent, collaborators_of, considered_edges, considered_intents,
    considered_providers, highest_price, intent_facts, intent_reasons, intents_worth, join_plan,
    mentioned_in, of_kind, offer_plan, preference_percent, propose_plan, provider_facts,
    providers_among, recommended_intent, recommended_provider, respond_plan, response_kind,
    response_percent, responses_to, scored_edges, scored_intents, scored_providers, tentative,
    text_matches, unscored, workspace_percent, IntentActionKind, IntentActionPlanView,
    IntentFactsView, IntentRecommendationView, IntentScoresView, ProviderFactsView,
    ProviderRecommendationView, ProviderScoresView, Score, ScoredEdgeView, CAUTIOUS, TRUSTED,
};
use crate::society::{
    answers, by_intent, by_pair, by_place, by_response, forked, places, signals_for, SocietyView,
};
use crate::table;
use crate::task_market::verified_capabilities;
use crate::text;
use vstd::prelude::*;
use vstd::string::*;

verus! {

/// To an agent that provides what is asked for, a need fits best of all, a goal
/// or a proposal fits nearly as well, and a status or another offer does not
/// count as a match.
pub proof fn lemma_need_fits_provider(
    m: AgentManifestView,
    name: Seq<char>,
    a: AgentIntentView,
    b: AgentIntentView,
)
    requires
        names(m.provides, name),
        a.capability == Some(name),
        b.capability == Some(name),
    ensures
        a.kind == IntentKind::Need ==> capability_percent(Some(m), a) == 100,
        a.kind == IntentKind::Need && b.kind != IntentKind::Need ==> capability_percent(
            Some(m),
            a,
        ) > capability_percent(Some(m), b),
        a.kind == IntentKind::Goal || a.kind == IntentKind::Proposal ==> capability_percent(
            Some(m),
            a,
        ) == 90,
        a.kind == IntentKind::Status || a.kind == IntentKind::Offer ==> capability_percent(
            Some(m),
            a,
        ) == 70,
        a.kind == IntentKind::Goal && b.kind == IntentKind::Proposal ==> capability_percent(
            Some(m),
            a,
        ) == capability_percent(Some(m), b),
        a.kind == IntentKind::Status && b.kind == IntentKind::Offer ==> capability_percent(
            Some(m),
            a,
        ) == capability_percent(Some(m), b),
{
}

/// To an agent that requires a capability and does not provide it, an offer of
/// it fits best of all, and nothing else counts as a match: a proposal or a
/// status comes next, and a goal or a need of someone else last.
pub proof fn lemma_offer_fits_requirer(
    m: AgentManifestView,
    name: Seq<char>,
    a: AgentIntentView,
    b: AgentIntentView,
)
    requires
        !names(m.provides, name),
        names(m.requires_caps, name),
        a.capability == Some(name),
        b.capability == Some(name),
    ensures
        a.kind == IntentKind::Offer ==> capability_percent(Some(m), a) == 95,
        a.kind == IntentKind::Offer && b.kind != IntentKind::Offer ==> capability_percent(
            Some(m),
            a,
        ) > capability_percent(Some(m), b),
        a.kind == IntentKind::Proposal || a.kind == IntentKind::Status ==> capability_percent(
            Some(m),
            a,
        ) == 70,
        a.kind == IntentKind::Goal || a.kind == IntentKind::Need ==> capability_percent(Some(m), a)
            == 45,
        (a.kind == IntentKind::Proposal || a.kind == IntentKind::Status) && (b.kind
            == IntentKind::Goal || b.kind == IntentKind::Need) ==> capability_percent(Some(m), a)
            > capability_percent(Some(m), b),
        a.kind == IntentKind::Proposal && b.kind == IntentKind::Status ==> capability_percent(
            Some(m),
            a,
        ) == capability_percent(Some(m), b),
        a.kind == IntentKind::Goal && b.kind == IntentKind::Need ==> capability_percent(Some(m), a)
            == capability_percent(Some(m), b),
{
}

/// A need is a match only for an agent that provides what is needed; an offer
/// only for one that requires what is offered and does not provide it.
pub proof fn lemma_match_has_ground(manifest: Option<AgentManifestView>, intent: AgentIntentView)
    requires
        capability_percent(manifest, intent) >= 75,
    ensures
        manifest is Some,
        intent.capability is Some,
        intent.kind == IntentKind::Need || intent.kind == IntentKind::Goal ==> names(
            manifest->Some_0.provides,
            intent.capability->Some_0,
        ),
        intent.kind == IntentKind::Proposal ==> names(
            manifest->Some_0.provides,
            intent.capability->Some_0,
        ),
        intent.kind == IntentKind::Offer ==> names(
            manifest->Some_0.requires_caps,
            intent.capability->Some_0,
        ) && !names(manifest->Some_0.provides, intent.capability->Some_0),
        intent.kind != IntentKind::Status,
{
}

/// Whoever neither provides nor requires what is asked for, or declares nothing
/// at all, sees a gap, whatever the kind of the intent; one who declares a
/// capability of the name sees none. Having declared nothing weighs less than
/// having declared something else.
pub proof fn lemma_gap_is_lack(
    m: AgentManifestView,
    name: Seq<char>,
    a: AgentIntentView,
    b: AgentIntentView,
)
    requires
        a.capability == Some(name),
        b.capability == Some(name),
    ensures
        capability_percent(Some(m), a) <= 25 <==> !names(m.provides, name) && !names(
            m.requires_caps,
            name,
        ),
        capability_percent(None, a) == 25,
        capability_percent(None, a) == capability_percent(None, b),
        !names(m.provides, name) && !names(m.requires_caps, name) ==> capability_percent(
            Some(m),
            a,
        ) == capability_percent(Some(m), b) && capability_percent(Some(m), a)
            == capability_percent(None, a) - 5,
{
}

/// An intent that asks for no capability is neither a match nor a gap, whoever
/// looks at it: goals and proposals stand above needs, and these above offers
/// and statuses.
pub proof fn lemma_open_intent_is_neutral(
    one: Option<AgentManifestView>,
    other: Option<AgentManifestView>,
    a: AgentIntentView,
    b: AgentIntentView,
)
    requires
        a.capability is None,
        b.capability is None,
    ensures
        capability_percent(one, a) == capability_percent(other, a),
        45 <= capability_percent(one, a) <= 55,
        a.kind == IntentKind::Need ==> capability_percent(one, a) == 50,
        (a.kind == IntentKind::Goal || a.kind == IntentKind::Proposal) && b.kind
            == IntentKind::Need ==> capability_percent(one, a) == capability_percent(one, b) + 5,
        a.kind == IntentKind::Need && (b.kind == IntentKind::Offer || b.kind
            == IntentKind::Status) ==> capability_percent(one, a) == capability_percent(one, b)
            + 5,
{
}

/// What an agent provides never makes a need fit worse, nor what it requires an
/// offer of what it does not provide.
pub proof fn lemma_declaring_helps(
    before: AgentManifestView,
    after: AgentManifestView,
    intent: AgentIntentView,
)
    requires
        forall|name: Seq<char>|
            #[trigger] names(before.provides, name) ==> names(after.provides, name),
        forall|name: Seq<char>|
            #[trigger] names(before.requires_caps, name) ==> names(after.requires_caps, name),
        intent.kind == IntentKind::Need || intent.kind == IntentKind::Goal || intent.kind
            == IntentKind::Proposal || (before.provides == after.provides),
    ensures
        capability_percent(Some(before), intent) <= capability_percent(Some(after), intent),
{
}

proof fn lemma_places(presence: Seq<(Seq<u8>, Seq<char>)>, agent: Seq<char>, workspace: Seq<u8>)
    ensures
        places(presence, agent).contains(workspace) <==> presence.contains((workspace, agent)),
    decreases presence.len(),
{
    if presence.len() > 0 {
        let front = presence.drop_last();
        let rest = places(front, agent);
        lemma_places(front, agent, workspace);
        assert(presence =~= front.push(presence.last()));
        if front.contains((workspace, agent)) {
            assert(presence[front.index_of((workspace, agent))] == (workspace, agent));
        }
        if presence.contains((workspace, agent)) && !front.contains((workspace, agent)) {
            let i = presence.index_of((workspace, agent));
            if i < front.len() {
                assert(front[i] == (workspace, agent));
            }
        }
        if presence.last().1 == agent {
            let all = rest.push(presence.last().0);
            if rest.contains(workspace) {
                assert(all[rest.index_of(workspace)] == workspace);
            }
            assert(all[rest.len() as int] == presence.last().0);
            if all.contains(workspace) {
                let i = all.index_of(workspace);
                if i < rest.len() {
                    assert(rest[i] == workspace);
                } else {
                    assert(presence[presence.len() - 1] == (workspace, agent));
                }
            }
        }
    }
}

/// An intent is nearest where the agent is present in its workspace, and
/// farthest where it names one that the agent is not in.
pub proof fn lemma_presence_is_near(v: SocietyView, agent: Seq<char>, intent: AgentIntentView)
    ensures
        ({
            let near = workspace_percent(
                order::sort_by_key(places(v.presence, agent), by_place()),
                intent,
            );
            &&& near == 100 <==> (intent.workspace matches Some(w) && v.presence.contains((w, agent)))
            &&& near == 35 <==> (intent.workspace matches Some(w) && !v.presence.contains((w, agent)))
            &&& near == 55 <==> intent.workspace is None
        }),
{
    if let Some(w) = intent.workspace {
        order::lemma_sorted_contains(places(v.presence, agent), by_place(), w);
        lemma_places(v.presence, agent, w);
    }
}

/// An intent without responses waits most. A response that declines changes
/// nothing, one that shows interest or counters lets it wait less, down to a
/// fifth, one that accepts leaves about a third, and a fulfilment leaves nothing.
pub proof fn lemma_responses_satisfy(responses: Seq<IntentResponseView>, r: IntentResponseView)
    ensures
        response_percent(Seq::empty()) == 100,
        response_percent(responses) <= 100,
        r.kind == IntentResponseKind::Decline ==> response_percent(responses.push(r))
            == response_percent(responses),
        r.kind == IntentResponseKind::Fulfilled ==> response_percent(responses.push(r)) == 0,
        response_percent(responses) == 0 ==> response_percent(responses.push(r)) == 0,
        r.kind == IntentResponseKind::Accept && response_percent(responses) != 0
            ==> response_percent(responses.push(r)) == 35,
        response_percent(responses) == 35 && r.kind != IntentResponseKind::Fulfilled
            ==> response_percent(responses.push(r)) == 35,
        (r.kind == IntentResponseKind::Interested || r.kind == IntentResponseKind::Counter)
            && response_percent(responses) != 0 && response_percent(responses) != 35 ==> (
        response_percent(responses.push(r)) == if response_percent(responses) < 32 {
            20
        } else {
            response_percent(responses) - 12
        }),
{
    reveal(Seq::filter);
    let more = responses.push(r);
    assert(more.drop_last() =~= responses);
    assert(more.last() == r);
    assert(Seq::<IntentResponseView>::empty().filter(tentative()).len() == 0);
}

/// Without a manifest every intent is equally welcome. A tag that nothing
/// declared mentions changes nothing; the first that is mentioned lifts an intent
/// from one half to three quarters, and each further one by a tenth, up to the
/// full.
pub proof fn lemma_shared_tags_please(
    m: AgentManifestView,
    plain: AgentIntentView,
    tagged: AgentIntentView,
    tag: Seq<char>,
)
    requires
        tagged.tags == plain.tags.push(tag),
    ensures
        preference_percent(None, plain) == 50,
        plain.tags.len() == 0 ==> preference_percent(Some(m), plain) == 50,
        !hinted(m, tag) ==> preference_percent(Some(m), tagged) == preference_percent(
            Some(m),
            plain,
        ),
        hinted(m, tag) && preference_percent(Some(m), plain) == 50 ==> preference_percent(
            Some(m),
            tagged,
        ) == 75,
        hinted(m, tag) && preference_percent(Some(m), plain) != 50 ==> (preference_percent(
            Some(m),
            tagged,
        ) == if preference_percent(Some(m), plain) > 90 {
            100
        } else {
            preference_percent(Some(m), plain) + 10
        }),
        50 <= preference_percent(Some(m), plain) <= 100,
{
    reveal(Seq::filter);
    lemma_hinted(m, tag);
    assert(tagged.tags.drop_last() =~= plain.tags);
    assert(tagged.tags.last() == tag);
}

/// Whether something that an agent declares (a goal, a value, a preference or a
/// role) mentions a tag.
pub open spec fn hinted(m: AgentManifestView, tag: Seq<char>) -> bool {
    ||| exists|i: int| 0 <= i < m.goals.len() && text_matches(#[trigger] m.goals[i], tag)
    ||| exists|i: int| 0 <= i < m.values.len() && text_matches(#[trigger] m.values[i], tag)
    ||| exists|i: int|
        0 <= i < m.preferences.len() && text_matches(#[trigger] m.preferences[i], tag)
    ||| exists|i: int|
        0 <= i < m.workspace_roles.len() && text_matches(#[trigger] m.workspace_roles[i], tag)
}

proof fn lemma_hinted(m: AgentManifestView, tag: Seq<char>)
    ensures
        hinted(m, tag) <==> mentioned_in(
            m.goals + m.values + m.preferences + m.workspace_roles,
            tag,
        ),
{
    let all = m.goals + m.values + m.preferences + m.workspace_roles;
    let a = m.goals.len() as int;
    let b = m.values.len() as int;
    let c = m.preferences.len() as int;
    if exists|i: int| 0 <= i < m.goals.len() && text_matches(#[trigger] m.goals[i], tag) {
        let i = choose|i: int| 0 <= i < m.goals.len() && text_matches(#[trigger] m.goals[i], tag);
        assert(all[i] == m.goals[i]);
    }
    if exists|i: int| 0 <= i < m.values.len() && text_matches(#[trigger] m.values[i], tag) {
        let i = choose|i: int| 0 <= i < m.values.len() && text_matches(#[trigger] m.values[i], tag);
        assert(all[a + i] == m.values[i]);
    }
    if exists|i: int|
        0 <= i < m.preferences.len() && text_matches(#[trigger] m.preferences[i], tag) {
        let i = choose|i: int|
            0 <= i < m.preferences.len() && text_matches(#[trigger] m.preferences[i], tag);
        assert(all[a + b + i] == m.preferences[i]);
    }
    if exists|i: int|
        0 <= i < m.workspace_roles.len() && text_matches(#[trigger] m.workspace_roles[i], tag) {
        let i = choose|i: int|
            0 <= i < m.workspace_roles.len() && text_matches(#[trigger] m.workspace_roles[i], tag);
        assert(all[a + b + c + i] == m.workspace_roles[i]);
    }
    if mentioned_in(all, tag) {
        let i = choose|i: int| 0 <= i < all.len() && text_matches(#[trigger] all[i], tag);
        if i < a {
            assert(m.goals[i] == all[i]);
        } else if i < a + b {
            assert(m.values[i - a] == all[i]);
        } else if i < a + b + c {
            assert(m.preferences[i - a - b] == all[i]);
        } else {
            assert(m.workspace_roles[i - a - b - c] == all[i]);
        }
    }
}

/// A text mentions whatever stands in it, and every text mentions the empty tag.
pub proof fn lemma_text_mentions_its_parts(
    before: Seq<char>,
    tag: Seq<char>,
    after: Seq<char>,
)
    ensures
        text_matches(before + tag + after, tag),
{
    let all = text::lower(before + tag + after);
    let low = text::lower(tag);
    assert(all.subrange(before.len() as int, (before.len() + tag.len()) as int) =~= low);
    assert(text::occurs_at(all, low, before.len() as int));
}

/// Whether two texts differ at most in the case of ASCII letters.
pub open spec fn same_but_case(a: Seq<char>, b: Seq<char>) -> bool {
    &&& a.len() == b.len()
    &&& forall|i: int|
        0 <= i < a.len() ==> #[trigger] a[i] == b[i] || ('A' <= a[i] <= 'Z' && b[i] as u32
            == a[i] as u32 + 32) || ('A' <= b[i] <= 'Z' && a[i] as u32 == b[i] as u32 + 32)
}

/// The case of ASCII letters does not matter to what a text mentions, neither in
/// the text nor in the tag.
pub proof fn lemma_case_does_not_matter(
    value: Seq<char>,
    tag: Seq<char>,
    other: Seq<char>,
    mark: Seq<char>,
)
    requires
        same_but_case(value, other),
        same_but_case(tag, mark),
    ensures
        text_matches(value, tag) == text_matches(other, mark),
{
    assert(text::lower(value) =~= text::lower(other));
    assert(text::lower(tag) =~= text::lower(mark));
}

/// The relations from which collaborators are recommended are exactly those that
/// the agent itself holds, that do not block, and that lead to someone who forked
/// no chain.
pub proof fn lemma_collaborators_are_own(v: SocietyView, agent: Seq<char>, e: SocialEdgeView)
    ensures
        considered_edges(v, agent).contains(e) <==> table::values(v.edges).contains(e) && e.from
            == agent && e.kind != RelationKind::Blocked && !(exists|i: int|
            0 <= i < v.equivocations.len() && (#[trigger] v.equivocations[i]).0.0 == e.to),
{
    let all = table::values(v.edges);
    let whole = order::sort_by_key(all.filter(order::every()), by_pair());
    order::lemma_kept_contains(whole, collaborators_of(v, agent), e);
    order::lemma_sorted_contains(all.filter(order::every()), by_pair(), e);
    order::lemma_kept_contains(all, order::every(), e);
}

proof fn lemma_same_lower(a: char, b: char)
    requires
        text::lower_char(a) == text::lower_char(b),
    ensures
        a == b || ('A' <= a <= 'Z' && b as u32 == a as u32 + 32) || ('A' <= b <= 'Z' && a as u32
            == b as u32 + 32),
{
    if 'A' as u32 <= a as u32 <= 'Z' as u32 {
        assert(text::lower_char(a) as u32 == a as u32 + 32);
    }
    if 'A' as u32 <= b as u32 <= 'Z' as u32 {
        assert(text::lower_char(b) as u32 == b as u32 + 32);
    }
}

/// A text mentions a tag only where the tag stands in it, but for the case of
/// letters.
pub proof fn lemma_mention_stands_in_text(value: Seq<char>, tag: Seq<char>) -> (at: int)
    requires
        text_matches(value, tag),
    ensures
        0 <= at <= value.len() - tag.len(),
        same_but_case(value.subrange(at, at + tag.len()), tag),
{
    let hay = text::lower(value);
    let low = text::lower(tag);
    let at = choose|at: int| text::occurs_at(hay, low, at);
    let part = value.subrange(at, at + tag.len());
    assert forall|i: int| 0 <= i < part.len() implies #[trigger] part[i] == tag[i] || ('A'
        <= part[i] <= 'Z' && tag[i] as u32 == part[i] as u32 + 32) || ('A' <= tag[i] <= 'Z'
        && part[i] as u32 == tag[i] as u32 + 32) by {
        assert(hay.subrange(at, at + tag.len())[i] == low[i]);
        lemma_same_lower(part[i], tag[i]);
    }
    at
}

proof fn lemma_provider_considered(
    v: SocietyView,
    requester: Option<Seq<char>>,
    name: Seq<char>,
    manifests: Seq<AgentManifestView>,
    i: int,
)
    requires
        0 <= i < manifests.len(),
        names(manifests[i].provides, name),
        !forked(v, manifests[i].did),
        requester matches Some(who) ==> !blocks(v, who, manifests[i].did),
    ensures
        exists|k: int|
            0 <= k < providers_among(v, requester, name, manifests).len() && (
            #[trigger] providers_among(v, requester, name, manifests)[k]).did == manifests[i].did,
    decreases manifests.len(),
{
    let front = manifests.drop_last();
    let rest = providers_among(v, requester, name, front);
    let all = providers_among(v, requester, name, manifests);
    if i < front.len() {
        lemma_provider_considered(v, requester, name, front, i);
        let k = choose|k: int|
            0 <= k < rest.len() && (#[trigger] rest[k]).did == front[i].did;
        assert(all[k] == rest[k]);
    } else {
        lemma_first_named(manifests[i].provides, name);
        assert(all[rest.len() as int].did == manifests[i].did);
    }
}

/// Everyone who declares a capability, forked no chain and is not blocked by the
/// requester is a candidate.
pub proof fn lemma_every_provider_is_considered(
    v: SocietyView,
    requester: Option<Seq<char>>,
    name: Seq<char>,
    m: AgentManifestView,
)
    requires
        table::values(v.manifests).contains(m),
        names(m.provides, name),
        !forked(v, m.did),
        requester matches Some(who) ==> !blocks(v, who, m.did),
    ensures
        exists|k: int|
            0 <= k < considered_providers(v, requester, name).len() && (
            #[trigger] considered_providers(v, requester, name)[k]).did == m.did,
{
    let all = table::values(v.manifests);
    let i = all.index_of(m);
    lemma_provider_considered(v, requester, name, all, i);
    let found = considered_providers(v, requester, name);
    let k = choose|k: int|
        0 <= k < found.len() && (#[trigger] providers_among(v, requester, name, all)[k]).did
            == all[i].did;
    assert(found[k].did == m.did);
}

proof fn lemma_provider_ground(
    v: SocietyView,
    requester: Option<Seq<char>>,
    name: Seq<char>,
    manifests: Seq<AgentManifestView>,
    k: int,
) -> (m: AgentManifestView)
    requires
        0 <= k < providers_among(v, requester, name, manifests).len(),
    ensures
        manifests.contains(m),
        !forked(v, m.did),
        requester matches Some(who) ==> !blocks(v, who, m.did),
        ({
            let f = providers_among(v, requester, name, manifests)[k];
            &&& f.did == m.did
            &&& f.name == m.name
            &&& m.provides.contains(f.capability)
            &&& f.capability.name == name
            &&& f.edge == match requester {
                Some(who) => table::find(v.edges, (who, m.did)),
                None => None,
            }
        }),
    decreases manifests.len(),
{
    let front = manifests.drop_last();
    let rest = providers_among(v, requester, name, front);
    if k < rest.len() {
        let m = lemma_provider_ground(v, requester, name, front, k);
        assert(manifests[front.index_of(m)] == m);
        m
    } else {
        let m = manifests.last();
        lemma_first_named(m.provides, name);
        assert(manifests[manifests.len() - 1] == m);
        m
    }
}

/// Every candidate stands for the manifest of an agent who declares the
/// capability under that very name, forked no chain and is not blocked by the
/// requester; it carries the declaration, and the relation of the requester.
pub proof fn lemma_candidate_has_declared(
    v: SocietyView,
    requester: Option<Seq<char>>,
    name: Seq<char>,
    k: int,
) -> (m: AgentManifestView)
    requires
        0 <= k < considered_providers(v, requester, name).len(),
    ensures
        table::values(v.manifests).contains(m),
        !forked(v, m.did),
        requester matches Some(who) ==> !blocks(v, who, m.did),
        ({
            let f = considered_providers(v, requester, name)[k];
            &&& f.did == m.did
            &&& f.name == m.name
            &&& m.provides.contains(f.capability)
            &&& f.capability.name == name
            &&& f.edge == match requester {
                Some(who) => table::find(v.edges, (who, m.did)),
                None => None,
            }
        }),
{
    lemma_provider_ground(v, requester, name, table::values(v.manifests), k)
}

/// The highest price is asked by a candidate, and none asks more.
pub proof fn lemma_highest_price_is_asked(all: Seq<ProviderFactsView>)
    ensures
        forall|i: int|
            0 <= i < all.len() ==> (#[trigger] all[i]).capability.price_per_unit
                <= highest_price(all),
        all.len() == 0 ==> highest_price(all) == 0,
        all.len() > 0 ==> exists|i: int|
            0 <= i < all.len() && (#[trigger] all[i]).capability.price_per_unit
                == highest_price(all),
    decreases all.len(),
{
    if all.len() > 0 {
        let front = all.drop_last();
        lemma_highest_price_is_asked(front);
        assert forall|i: int| 0 <= i < all.len() implies (
        #[trigger] all[i]).capability.price_per_unit <= highest_price(all) by {
            if i < front.len() {
                assert(front[i] == all[i]);
            }
        }
        if highest_price(front) > all.last().capability.price_per_unit {
            let i = choose|i: int|
                0 <= i < front.len() && (#[trigger] front[i]).capability.price_per_unit
                    == highest_price(front);
            assert(all[i].capability.price_per_unit == highest_price(all));
        } else {
            assert(all[all.len() - 1].capability.price_per_unit == highest_price(all));
        }
    }
}

/// A provider on whom there is no ground to rely (someone asks, trust does not
/// reach it, no collective vouches for it) is ranked as scored but never above
/// the cap; every other is ranked as scored.
pub proof fn lemma_ranking_follows_trust(
    asked: bool,
    f: ProviderFactsView,
    s: ProviderScoresView,
)
    ensures
        ({
            let r = recommended_provider(asked, f, s);
            &&& r.high_trust_eligible <==> (!asked || s.reachability.bits > 0 || f.witnessed)
            &&& r.high_trust_eligible ==> r.ranking_score == s.ranking
            &&& s.ranking.bits <= CAUTIOUS ==> r.ranking_score == s.ranking
            &&& !r.high_trust_eligible && s.ranking.bits > CAUTIOUS ==> r.ranking_score.bits
                == CAUTIOUS
        }),
{
}

/// Whether an agent may look at an intent: it is someone else's, has not
/// expired, comes from nobody whom the agent blocks or who forked a chain, and
/// the agent has not answered it.
pub open spec fn unanswered_by(v: SocietyView, agent: Seq<char>, now: Option<u64>, intent: AgentIntentView) -> bool {
    &&& intent.author != agent
    &&& now matches Some(t) ==> intent.expires_at matches Some(end) ==> t < end
    &&& !blocks(v, agent, intent.author)
    &&& !forked(v, intent.author)
    &&& forall|r: IntentResponseView| #[trigger]
        table::values(v.intent_responses).contains(r) && r.intent_id == intent.id ==> r.responder
            != agent
}

proof fn lemma_answered(v: SocietyView, agent: Seq<char>, intent: AgentIntentView)
    ensures
        crate::recommend::answered(responses_to(v, intent.id), agent) <==> exists|
            r: IntentResponseView,
        | #[trigger]
            table::values(v.intent_responses).contains(r) && r.intent_id == intent.id
                && r.responder == agent,
{
    let all = responses_to(v, intent.id);
    order::lemma_listed(v.intent_responses, answers(intent.id), by_response());
    if crate::recommend::answered(all, agent) {
        let i = choose|i: int| 0 <= i < all.len() && (#[trigger] all[i]).responder == agent;
        assert(all.contains(all[i]));
        assert(table::values(v.intent_responses).contains(all[i]));
    }
    if exists|r: IntentResponseView| #[trigger]
        table::values(v.intent_responses).contains(r) && r.intent_id == intent.id && r.responder
            == agent {
        let r = choose|r: IntentResponseView| #[trigger]
            table::values(v.intent_responses).contains(r) && r.intent_id == intent.id
                && r.responder == agent;
        assert(all.contains(r));
        let i = all.index_of(r);
        assert(all[i].responder == agent);
    }
}

proof fn lemma_intents_worth(
    v: SocietyView,
    agent: Seq<char>,
    now: Option<u64>,
    intents: Seq<AgentIntentView>,
    intent: AgentIntentView,
)
    ensures
        (exists|k: int|
            0 <= k < intents_worth(v, agent, now, intents).len() && (#[trigger] intents_worth(
                v,
                agent,
                now,
                intents,
            )[k]).intent == intent) <==> intents.contains(intent) && unanswered_by(
            v,
            agent,
            now,
            intent,
        ),
    decreases intents.len(),
{
    if intents.len() > 0 {
        let front = intents.drop_last();
        let last = intents.last();
        let rest = intents_worth(v, agent, now, front);
        let all = intents_worth(v, agent, now, intents);
        lemma_intents_worth(v, agent, now, front, intent);
        lemma_answered(v, agent, last);
        assert(crate::recommend::considered(v, agent, now, last) <==> unanswered_by(v, agent, now, last));
        if front.contains(intent) {
            assert(intents[front.index_of(intent)] == intent);
        }
        if intents.contains(intent) && !front.contains(intent) {
            let i = intents.index_of(intent);
            if i < front.len() {
                assert(front[i] == intent);
            }
            assert(intent == last);
        }
        if exists|k: int| 0 <= k < rest.len() && (#[trigger] rest[k]).intent == intent {
            let k = choose|k: int| 0 <= k < rest.len() && (#[trigger] rest[k]).intent == intent;
            assert(all[k].intent == intent);
        }
        if exists|k: int| 0 <= k < all.len() && (#[trigger] all[k]).intent == intent {
            let k = choose|k: int| 0 <= k < all.len() && (#[trigger] all[k]).intent == intent;
            if k < rest.len() {
                assert(rest[k].intent == intent);
            } else {
                assert(intents[intents.len() - 1] == intent);
            }
        }
        if intent == last && unanswered_by(v, agent, now, last) {
            assert(all[rest.len() as int].intent == intent);
        }
    }
}

/// An agent is shown exactly the intents that it may look at.
pub proof fn lemma_open_intents_are_considered(
    v: SocietyView,
    agent: Seq<char>,
    now: Option<u64>,
    intent: AgentIntentView,
)
    ensures
        (exists|k: int|
            0 <= k < considered_intents(v, agent, now).len() && (#[trigger] considered_intents(
                v,
                agent,
                now,
            )[k]).intent == intent) <==> table::values(v.intents).contains(intent)
            && unanswered_by(v, agent, now, intent),
{
    let all = order::listed(v.intents, order::every(), by_intent());
    order::lemma_listed(v.intents, order::every(), by_intent());
    assert(all.contains(intent) <==> table::values(v.intents).contains(intent));
    lemma_intents_worth(v, agent, now, all, intent);
}

/// Cutting a ranking short keeps what stands first: nothing that was left out
/// stands before anything that was kept, and nothing is left out for want of
/// candidates.
proof fn lemma_ranked<A>(all: Seq<A>, key: spec_fn(A) -> SortKey, limit: usize)
    ensures
        ({
            let whole = order::sort_by_key(all, key);
            let best = at_most(whole, limit);
            &&& best.len() == if all.len() < limit { all.len() } else { limit as nat }
            &&& whole.to_multiset() == all.to_multiset()
            &&& whole.len() == all.len()
            &&& order::keys_ascend(whole, key)
            &&& forall|i: int| 0 <= i < best.len() ==> all.contains(#[trigger] best[i])
            &&& forall|i: int| 0 <= i < best.len() ==> #[trigger] best[i] == whole[i]
        }),
{
    let whole = order::sort_by_key(all, key);
    let best = at_most(whole, limit);
    order::lemma_sort_by_key(all, key);
    assert forall|i: int| 0 <= i < best.len() implies all.contains(#[trigger] best[i]) by {
        assert(whole[i] == best[i]);
        assert(whole.contains(best[i]));
        order::lemma_sorted_contains(all, key, best[i]);
    }
}

/// Of two keys that begin with opposite numbers, the earlier begins with the
/// greater.
proof fn lemma_first_number(a: SortKey, b: SortKey, x: int, y: int)
    requires
        order::key_le(a, b),
        a.len() > 0,
        b.len() > 0,
        a[0] == KeyPartView::Num(order::opposite(x)),
        b[0] == KeyPartView::Num(order::opposite(y)),
    ensures
        x >= y,
        x == y ==> order::key_le(a.drop_first(), b.drop_first()),
{
    order::lemma_key_le_parts(a, b);
}

/// Recommended providers come with the best ranking first; among equals the
/// greater social score, then the greater governance score, then the lower price.
/// Whoever is left out ranks no better than anyone who is recommended.
pub proof fn lemma_best_providers_first(
    all: Seq<ProviderRecommendationView>,
    limit: usize,
    i: int,
    j: int,
)
    requires
        0 <= i < j < all.len(),
        i < limit,
    ensures
        ({
            let whole = order::sort_by_key(all, by_provider_rank());
            let best = at_most(whole, limit);
            let (a, b) = (whole[i], whole[j]);
            &&& whole.to_multiset() == all.to_multiset()
            &&& best.len() == if all.len() < limit { all.len() } else { limit as nat }
            &&& best[i] == a
            &&& a.ranking_score.bits >= b.ranking_score.bits
            &&& a.ranking_score == b.ranking_score ==> a.social_score.bits >= b.social_score.bits
            &&& a.ranking_score == b.ranking_score && a.social_score == b.social_score
                ==> a.governance_score.bits >= b.governance_score.bits
            &&& a.ranking_score == b.ranking_score && a.social_score == b.social_score
                && a.governance_score == b.governance_score ==> a.price_per_unit
                <= b.price_per_unit
        }),
{
    let key = by_provider_rank();
    let whole = order::sort_by_key(all, key);
    lemma_ranked(all, key, limit);
    let (a, b) = (whole[i], whole[j]);
    let (x, y) = (key(a), key(b));
    assert(order::key_le(x, y));
    lemma_first_number(x, y, a.ranking_score.bits as int, b.ranking_score.bits as int);
    if a.ranking_score == b.ranking_score {
        let (x, y) = (x.drop_first(), y.drop_first());
        lemma_first_number(x, y, a.social_score.bits as int, b.social_score.bits as int);
        if a.social_score == b.social_score {
            let (x, y) = (x.drop_first(), y.drop_first());
            lemma_first_number(x, y, a.governance_score.bits as int, b.governance_score.bits as int);
            if a.governance_score == b.governance_score {
                order::lemma_key_le_parts(x.drop_first(), y.drop_first());
            }
        }
    }
}

/// Recommended intents come with the best ranking first; among equals the one
/// that fits better, then the one in the nearer workspace, then the older.
/// Whatever is left out ranks no better than anything that is recommended.
pub proof fn lemma_best_intents_first(
    all: Seq<IntentRecommendationView>,
    limit: usize,
    i: int,
    j: int,
)
    requires
        0 <= i < j < all.len(),
        i < limit,
    ensures
        ({
            let whole = order::sort_by_key(all, by_intent_rank());
            let best = at_most(whole, limit);
            let (a, b) = (whole[i], whole[j]);
            &&& whole.to_multiset() == all.to_multiset()
            &&& best.len() == if all.len() < limit { all.len() } else { limit as nat }
            &&& best[i] == a
            &&& a.ranking_score.bits >= b.ranking_score.bits
            &&& a.ranking_score == b.ranking_score ==> a.capability_score >= b.capability_score
            &&& a.ranking_score == b.ranking_score && a.capability_score == b.capability_score
                ==> a.workspace_score >= b.workspace_score
            &&& a.ranking_score == b.ranking_score && a.capability_score == b.capability_score
                && a.workspace_score == b.workspace_score ==> a.intent.created_at
                <= b.intent.created_at
        }),
{
    let key = by_intent_rank();
    let whole = order::sort_by_key(all, key);
    lemma_ranked(all, key, limit);
    let (a, b) = (whole[i], whole[j]);
    let (x, y) = (key(a), key(b));
    assert(order::key_le(x, y));
    lemma_first_number(x, y, a.ranking_score.bits as int, b.ranking_score.bits as int);
    if a.ranking_score == b.ranking_score {
        let (x, y) = (x.drop_first(), y.drop_first());
        lemma_first_number(x, y, a.capability_score as int, b.capability_score as int);
        if a.capability_score == b.capability_score {
            let (x, y) = (x.drop_first(), y.drop_first());
            lemma_first_number(x, y, a.workspace_score as int, b.workspace_score as int);
            if a.workspace_score == b.workspace_score {
                order::lemma_key_le_parts(x.drop_first(), y.drop_first());
            }
        }
    }
}

/// Recommended collaborators come with the best score first, and among equals in
/// the order of their names. Whoever is left out scores no better than anyone who
/// is recommended.
pub proof fn lemma_best_collaborators_first(
    all: Seq<ScoredEdgeView>,
    limit: usize,
    i: int,
    j: int,
)
    requires
        0 <= i < j < all.len(),
        i < limit,
    ensures
        ({
            let whole = order::sort_by_key(all, by_score());
            let best = at_most(whole, limit);
            let (a, b) = (whole[i], whole[j]);
            &&& whole.to_multiset() == all.to_multiset()
            &&& best.len() == if all.len() < limit { all.len() } else { limit as nat }
            &&& best[i] == a
            &&& a.score.bits >= b.score.bits
            &&& a.score == b.score ==> text::text_le(a.edge.to, b.edge.to)
        }),
{
    let key = by_score();
    let whole = order::sort_by_key(all, key);
    lemma_ranked(all, key, limit);
    let (a, b) = (whole[i], whole[j]);
    let (x, y) = (key(a), key(b));
    assert(order::key_le(x, y));
    lemma_first_number(x, y, a.score.bits as int, b.score.bits as int);
    if a.score == b.score {
        order::lemma_key_le_parts(x.drop_first(), y.drop_first());
    }
}

/// Whether a plan among several is of a kind.
pub open spec fn plans_for(plans: Seq<IntentActionPlanView>, kind: IntentActionKind) -> bool {
    exists|i: int| 0 <= i < plans.len() && (#[trigger] plans[i]).kind == kind
}

proof fn lemma_plan_kinds(
    actor: Seq<char>,
    manifest: Option<AgentManifestView>,
    f: IntentFactsView,
    s: IntentScoresView,
) -> (made: Seq<IntentActionPlanView>)
    requires
        !f.fulfilled,
    ensures
        action_plans(actor, manifest, f, s) == order::sort_by_key(made, by_confidence()),
        forall|p: IntentActionPlanView| #[trigger]
            made.contains(p) ==> {
                ||| p == respond_plan(actor, manifest, f, s)
                ||| p == offer_plan(actor, manifest, f, s) && f.capability_score >= 75
                    && f.intent.task_id is Some
                ||| p == join_plan(actor, f, s) && f.intent.workspace is Some && f.workspace_score
                    < 100
                ||| p == propose_plan(actor, f, s) && (f.intent.kind == IntentKind::Proposal
                    || f.intent.kind == IntentKind::Goal) && f.preference_score >= 60
                    && f.response_count == 0
            },
        made.contains(respond_plan(actor, manifest, f, s)),
        f.capability_score >= 75 && f.intent.task_id is Some ==> made.contains(
            offer_plan(actor, manifest, f, s),
        ),
        f.intent.workspace is Some && f.workspace_score < 100 ==> made.contains(
            join_plan(actor, f, s),
        ),
        (f.intent.kind == IntentKind::Proposal || f.intent.kind == IntentKind::Goal)
            && f.preference_score >= 60 && f.response_count == 0 ==> made.contains(
            propose_plan(actor, f, s),
        ),
        made.len() <= 4,
{
    let respond = seq![respond_plan(actor, manifest, f, s)];
    let offer = crate::recommend::when(
        f.capability_score >= 75 && f.intent.task_id is Some,
        offer_plan(actor, manifest, f, s),
    );
    let join = crate::recommend::when(f.intent.workspace is Some && f.workspace_score < 100, join_plan(actor, f, s));
    let propose = crate::recommend::when(
        (f.intent.kind == IntentKind::Proposal || f.intent.kind == IntentKind::Goal)
            && f.preference_score >= 60 && f.response_count == 0,
        propose_plan(actor, f, s),
    );
    let made = respond + offer + join + propose;
    assert forall|p: IntentActionPlanView| #[trigger]
        made.contains(p) <==> respond.contains(p) || offer.contains(p) || join.contains(p)
            || propose.contains(p) by {
        lemma_either_holds(respond + offer + join, propose, p);
        lemma_either_holds(respond + offer, join, p);
        lemma_either_holds(respond, offer, p);
    }
    assert(respond[0] == respond_plan(actor, manifest, f, s));
    if offer.len() > 0 {
        assert(offer[0] == offer_plan(actor, manifest, f, s));
    }
    if join.len() > 0 {
        assert(join[0] == join_plan(actor, f, s));
    }
    if propose.len() > 0 {
        assert(propose[0] == propose_plan(actor, f, s));
    }
    made
}

proof fn lemma_either_holds<A>(one: Seq<A>, other: Seq<A>, a: A)
    ensures
        (one + other).contains(a) <==> one.contains(a) || other.contains(a),
{
    let whole = one + other;
    if one.contains(a) {
        assert(whole[one.index_of(a)] == a);
    }
    if other.contains(a) {
        assert(whole[one.len() + other.index_of(a)] == a);
    }
    if whole.contains(a) {
        let i = whole.index_of(a);
        if i < one.len() {
            assert(one[i] == a);
        } else {
            assert(other[i - one.len()] == a);
        }
    }
}

/// A fulfilled intent needs no action. Any other can be answered; work is offered
/// exactly when the intent is a match and names a task, a workspace joined exactly
/// when the intent names one that the agent is not in, and a collective asked
/// exactly on a goal or a proposal that the agent likes and nobody answered.
pub proof fn lemma_plans_have_reason(
    actor: Seq<char>,
    manifest: Option<AgentManifestView>,
    f: IntentFactsView,
    s: IntentScoresView,
)
    ensures
        ({
            let plans = action_plans(actor, manifest, f, s);
            &&& f.fulfilled <==> plans.len() == 0
            &&& plans_for(plans, IntentActionKind::RespondIntent) <==> !f.fulfilled
            &&& plans_for(plans, IntentActionKind::OfferTask) <==> !f.fulfilled
                && f.capability_score >= 75 && f.intent.task_id is Some
            &&& plans_for(plans, IntentActionKind::JoinWorkspace) <==> !f.fulfilled
                && f.intent.workspace is Some && f.workspace_score < 100
            &&& plans_for(plans, IntentActionKind::ProposeCollective) <==> !f.fulfilled && (
            f.intent.kind == IntentKind::Proposal || f.intent.kind == IntentKind::Goal)
                && f.preference_score >= 60 && f.response_count == 0
        }),
{
    let plans = action_plans(actor, manifest, f, s);
    if !f.fulfilled {
        let made = lemma_plan_kinds(actor, manifest, f, s);
        assert forall|p: IntentActionPlanView| #[trigger]
            plans.contains(p) <==> made.contains(p) by {
            order::lemma_sorted_contains(made, by_confidence(), p);
        }
        assert forall|i: int| 0 <= i < plans.len() implies made.contains(#[trigger] plans[i]) by {
            assert(plans.contains(plans[i]));
        }
        let r = respond_plan(actor, manifest, f, s);
        assert(plans.contains(r));
        assert(plans[plans.index_of(r)].kind == IntentActionKind::RespondIntent);
        let o = offer_plan(actor, manifest, f, s);
        if plans.contains(o) {
            assert(plans[plans.index_of(o)].kind == IntentActionKind::OfferTask);
        }
        let j = join_plan(actor, f, s);
        if plans.contains(j) {
            assert(plans[plans.index_of(j)].kind == IntentActionKind::JoinWorkspace);
        }
        let p = propose_plan(actor, f, s);
        if plans.contains(p) {
            assert(plans[plans.index_of(p)].kind == IntentActionKind::ProposeCollective);
        }
    }
}

/// Every plan is the agent's own, towards the author of the intent, and carries
/// the intent's task, workspace and capability. The most confident comes first;
/// the confidence is the one scored for its kind. Only a response says of what kind
/// it is: of interest exactly when the intent is a match, otherwise a
/// counter-proposal to an offer or a proposal, and else a refusal. Only an offer
/// names a price, and only one that the agent declares for the capability.
pub proof fn lemma_plans_are_about_the_intent(
    actor: Seq<char>,
    manifest: Option<AgentManifestView>,
    f: IntentFactsView,
    s: IntentScoresView,
    i: int,
)
    requires
        0 <= i < action_plans(actor, manifest, f, s).len(),
    ensures
        ({
            let plans = action_plans(actor, manifest, f, s);
            let p = plans[i];
            &&& p.actor == actor
            &&& p.peer == f.intent.author
            &&& p.intent_id == f.intent.id
            &&& p.workspace == f.intent.workspace
            &&& p.task_id == f.intent.task_id
            &&& p.capability == f.intent.capability
            &&& i > 0 ==> plans[i - 1].confidence.bits >= p.confidence.bits
            &&& p.confidence == match p.kind {
                IntentActionKind::RespondIntent => s.respond,
                IntentActionKind::OfferTask => s.offer,
                IntentActionKind::JoinWorkspace => s.join,
                IntentActionKind::ProposeCollective => s.propose,
            }
            &&& p.kind == IntentActionKind::RespondIntent <==> p.response_kind is Some
            &&& p.response_kind == Some(IntentResponseKind::Interested) <==> p.kind
                == IntentActionKind::RespondIntent && f.capability_score >= 75
            &&& p.response_kind == Some(IntentResponseKind::Counter) <==> p.kind
                == IntentActionKind::RespondIntent && f.capability_score < 75 && (f.intent.kind
                == IntentKind::Offer || f.intent.kind == IntentKind::Proposal)
            &&& p.response_kind != Some(IntentResponseKind::Accept)
            &&& p.response_kind != Some(IntentResponseKind::Fulfilled)
            &&& p.estimated_time_secs is Some <==> p.kind == IntentActionKind::OfferTask
            &&& p.suggested_price is Some <==> p.kind == IntentActionKind::OfferTask && (
            manifest matches Some(m) && f.intent.capability matches Some(name) && names(
                m.provides,
                name,
            ))
            &&& p.suggested_price matches Some(price) ==> exists|k: int|
                0 <= k < manifest->Some_0.provides.len() && (
                #[trigger] manifest->Some_0.provides[k]).name == f.intent.capability->Some_0
                    && manifest->Some_0.provides[k].price_per_unit == price
        }),
{
    let plans = action_plans(actor, manifest, f, s);
    let p = plans[i];
    let made = lemma_plan_kinds(actor, manifest, f, s);
    order::lemma_sort_by_key(made, by_confidence());
    assert(plans.contains(p));
    order::lemma_sorted_contains(made, by_confidence(), p);
    if i > 0 {
        let (x, y) = (by_confidence()(plans[i - 1]), by_confidence()(p));
        assert(order::key_le(x, y));
        lemma_first_number(
            x,
            y,
            plans[i - 1].confidence.bits as int,
            p.confidence.bits as int,
        );
    }
    if let Some(m) = manifest {
        if let Some(name) = f.intent.capability {
            lemma_first_named(m.provides, name);
            if let Some(d) = first_named(m.provides, name) {
                let k = m.provides.index_of(d);
                assert(m.provides[k].price_per_unit == d.price_per_unit);
            }
        }
    }
}

proof fn lemma_reason(applies: bool, reason: Seq<char>)
    ensures
        because(applies, reason).contains(reason) <==> applies,
        because(applies, reason).len() == if applies { 1nat } else { 0nat },
{
    if applies {
        assert(because(applies, reason)[0] == reason);
    }
}

/// Each reason is given where it applies, and no more reasons than apply.
#[verifier::spinoff_prover]
#[verifier::rlimit(40)]
pub proof fn lemma_reasons_apply(f: IntentFactsView, s: IntentScoresView)
    ensures
        ({
            let all = intent_reasons(f, s);
            let fits = f.intent.capability is Some && f.capability_score >= 90;
            let lacks = f.intent.capability is Some && f.capability_score <= 25;
            let shared = f.intent.workspace is Some && f.workspace_score >= 100;
            let new = f.intent.workspace is Some && f.workspace_score <= 35;
            &&& fits ==> all.contains("capability:"@ + f.intent.capability->Some_0)
            &&& lacks ==> all.contains("capability-gap:"@ + f.intent.capability->Some_0)
            &&& shared ==> all.contains("shared-workspace"@)
            &&& new ==> all.contains("new-workspace"@)
            &&& s.social.bits >= TRUSTED ==> all.contains("trusted-author"@)
            &&& s.reputation.bits >= TRUSTED ==> all.contains("positive-history"@)
            &&& f.preference_score > 50 ==> all.contains("preference-match"@)
            &&& f.response_count == 0 ==> all.contains("unanswered"@)
            &&& f.response_count > 0 ==> all.contains(
                "responses:"@ + text::decimal(f.response_count as nat),
            )
            &&& f.fulfilled ==> all.contains("fulfilled"@)
            &&& all.len() == 1 + count(fits) + count(lacks) + count(shared) + count(new) + count(
                s.social.bits >= TRUSTED,
            ) + count(s.reputation.bits >= TRUSTED) + count(f.preference_score > 50) + count(
                f.fulfilled,
            )
        }),
{
    let all = intent_reasons(f, s);
    let c = match f.intent.capability {
        Some(name) => because(f.capability_score >= 90, "capability:"@ + name) + because(
            f.capability_score <= 25,
            "capability-gap:"@ + name,
        ),
        None => Seq::empty(),
    };
    if let Some(name) = f.intent.capability {
        let a = because(f.capability_score >= 90, "capability:"@ + name);
        let b = because(f.capability_score <= 25, "capability-gap:"@ + name);
        lemma_reason(f.capability_score >= 90, "capability:"@ + name);
        lemma_reason(f.capability_score <= 25, "capability-gap:"@ + name);
        lemma_either_holds(a, b, "capability:"@ + name);
        lemma_either_holds(a, b, "capability-gap:"@ + name);
    }
    let d = because(f.intent.workspace is Some && f.workspace_score >= 100, "shared-workspace"@);
    let e = because(f.intent.workspace is Some && f.workspace_score <= 35, "new-workspace"@);
    let g = because(s.social.bits >= TRUSTED, "trusted-author"@);
    let h = because(s.reputation.bits >= TRUSTED, "positive-history"@);
    let i = because(f.preference_score > 50, "preference-match"@);
    let j = because(f.response_count == 0, "unanswered"@);
    let many = "responses:"@ + text::decimal(f.response_count as nat);
    let k = because(f.response_count != 0, many);
    let l = because(f.fulfilled, "fulfilled"@);
    lemma_reason(f.intent.workspace is Some && f.workspace_score >= 100, "shared-workspace"@);
    lemma_reason(f.intent.workspace is Some && f.workspace_score <= 35, "new-workspace"@);
    lemma_reason(s.social.bits >= TRUSTED, "trusted-author"@);
    lemma_reason(s.reputation.bits >= TRUSTED, "positive-history"@);
    lemma_reason(f.preference_score > 50, "preference-match"@);
    lemma_reason(f.response_count == 0, "unanswered"@);
    lemma_reason(f.response_count != 0, many);
    lemma_reason(f.fulfilled, "fulfilled"@);
    assert(all == c + d + e + g + h + i + j + k + l);
    assert forall|x: Seq<char>| #[trigger]
        all.contains(x) <==> c.contains(x) || d.contains(x) || e.contains(x) || g.contains(x)
            || h.contains(x) || i.contains(x) || j.contains(x) || k.contains(x) || l.contains(
            x,
        ) by {
        lemma_either_holds(c, d, x);
        lemma_either_holds(c + d, e, x);
        lemma_either_holds(c + d + e, g, x);
        lemma_either_holds(c + d + e + g, h, x);
        lemma_either_holds(c + d + e + g + h, i, x);
        lemma_either_holds(c + d + e + g + h + i, j, x);
        lemma_either_holds(c + d + e + g + h + i + j, k, x);
        lemma_either_holds(c + d + e + g + h + i + j + k, l, x);
    }
}

/// One where something holds, else none.
pub open spec fn count(holds: bool) -> nat {
    if holds {
        1
    } else {
        0
    }
}

/// What is known of an intent is the intent itself, its author's name and the
/// agent's relation to the author where there are such, and how many have answered;
/// it is fulfilled exactly when some response to it says so.
pub proof fn lemma_facts_of_intent(v: SocietyView, agent: Seq<char>, intent: AgentIntentView)
    requires
        v.intent_responses.len() <= usize::MAX,
    ensures
        ({
            let f = intent_facts(v, agent, intent);
            &&& f.intent == intent
            &&& f.author_name is Some <==> table::find(v.manifests, intent.author) is Some
            &&& f.author_name matches Some(name) ==> table::at(v.manifests, intent.author).name
                == name
            &&& f.edge == table::find(v.edges, (agent, intent.author))
            &&& f.response_count == responses_to(v, intent.id).len()
            &&& f.response_count == 0 <==> forall|r: IntentResponseView| #[trigger]
                table::values(v.intent_responses).contains(r) ==> r.intent_id != intent.id
            &&& f.fulfilled <==> exists|r: IntentResponseView| #[trigger]
                table::values(v.intent_responses).contains(r) && r.intent_id == intent.id && r.kind
                    == IntentResponseKind::Fulfilled
            &&& f.fulfilled ==> f.response_score == 0
            &&& f.capability_score == capability_percent(table::find(v.manifests, agent), intent)
            &&& f.preference_score == preference_percent(table::find(v.manifests, agent), intent)
        }),
{
    let rs = responses_to(v, intent.id);
    order::lemma_listed(v.intent_responses, answers(intent.id), by_response());
    table::values(v.intent_responses).lemma_filter_len(answers(intent.id));
    if rs.len() > 0 {
        assert(rs.contains(rs[0]));
        assert(table::values(v.intent_responses).contains(rs[0]));
    }
    let done = rs.filter(of_kind(IntentResponseKind::Fulfilled));
    if done.len() > 0 {
        let r = done[0];
        assert(done.contains(r));
        order::lemma_kept_contains(rs, of_kind(IntentResponseKind::Fulfilled), r);
        assert(table::values(v.intent_responses).contains(r));
    }
    if exists|r: IntentResponseView| #[trigger]
        table::values(v.intent_responses).contains(r) && r.intent_id == intent.id && r.kind
            == IntentResponseKind::Fulfilled {
        let r = choose|r: IntentResponseView| #[trigger]
            table::values(v.intent_responses).contains(r) && r.intent_id == intent.id && r.kind
                == IntentResponseKind::Fulfilled;
        assert(rs.contains(r));
        order::lemma_kept_contains(rs, of_kind(IntentResponseKind::Fulfilled), r);
        assert(done.contains(r));
    }
    if exists|r: IntentResponseView| #[trigger]
        table::values(v.intent_responses).contains(r) && r.intent_id == intent.id {
        let r = choose|r: IntentResponseView| #[trigger]
            table::values(v.intent_responses).contains(r) && r.intent_id == intent.id;
        assert(rs.contains(r));
    }
}

/// A recommended intent tells what is known of it and how it was scored.
pub proof fn lemma_recommended_intent_tells_facts(
    agent: Seq<char>,
    manifest: Option<AgentManifestView>,
    f: IntentFactsView,
    s: IntentScoresView,
)
    ensures
        ({
            let r = recommended_intent(agent, manifest, f, s);
            &&& r.intent == f.intent
            &&& r.author_name == f.author_name
            &&& r.capability_score == f.capability_score
            &&& r.workspace_score == f.workspace_score
            &&& r.response_score == f.response_score
            &&& r.preference_score == f.preference_score
            &&& r.response_count == f.response_count
            &&& r.fulfilled == f.fulfilled
            &&& r.social_score == s.social
            &&& r.reputation_score == s.reputation
            &&& r.ranking_score == s.ranking
            &&& r.reasons == intent_reasons(f, s)
            &&& r.actions == action_plans(agent, manifest, f, s)
        }),
{
}

/// A recommended provider tells what is known of it and how it was scored.
pub proof fn lemma_recommended_provider_tells_facts(
    asked: bool,
    f: ProviderFactsView,
    s: ProviderScoresView,
)
    ensures
        ({
            let r = recommended_provider(asked, f, s);
            &&& r.did == f.did
            &&& r.name == f.name
            &&& r.capability == f.capability
            &&& r.price_per_unit == f.capability.price_per_unit
            &&& r.social_score == s.social
            &&& r.reputation_score == s.reputation
            &&& r.reachability_score == s.reachability
            &&& r.sybil_cluster_score == s.sybil_cluster
            &&& r.governance_score == s.governance
            &&& r.governance_signals == f.governance_signals
            &&& r.verified_capability == f.verified_capability
        }),
{
}

/// A provider is witnessed exactly when one of its latest signals is an anchored
/// acceptance; its evidence is that for the capability, where there is some.
pub proof fn lemma_facts_of_provider(
    v: SocietyView,
    requester: Option<Seq<char>>,
    name: Seq<char>,
    m: AgentManifestView,
)
    requires
        names(m.provides, name),
    ensures
        ({
            let f = provider_facts(v, requester, name, m);
            &&& f.governance_signals == signals_for(v, m.did, 5)
            &&& f.witnessed <==> exists|i: int|
                0 <= i < f.governance_signals.len() && (
                #[trigger] f.governance_signals[i]).truth_status == FactTruthStatus::Anchored
                    && f.governance_signals[i].outcome == CollectiveDecisionOutcome::Accepted
            &&& f.verified_capability is Some <==> exists|i: int|
                0 <= i < verified_capabilities(v.market, m.did).len() && (
                #[trigger] verified_capabilities(v.market, m.did)[i]).name == name
            &&& f.verified_capability matches Some(c) ==> c.name == name && verified_capabilities(
                v.market,
                m.did,
            ).contains(c)
        }),
{
    lemma_first_named(m.provides, name);
    crate::bearings::lemma_evidence_is_found_by_name(verified_capabilities(v.market, m.did), name);
}

/// Scores go to the candidates in their order.
pub proof fn lemma_scores_go_in_order(
    v: SocietyView,
    agent: Seq<char>,
    asked: bool,
    providers: Seq<ProviderFactsView>,
    provider_scores: Seq<ProviderScoresView>,
    intents: Seq<IntentFactsView>,
    intent_scores: Seq<IntentScoresView>,
    edges: Seq<SocialEdgeView>,
    scores: Seq<Score>,
    i: int,
)
    ensures
        scored_providers(asked, providers, provider_scores).len() == providers.len(),
        0 <= i < providers.len() ==> scored_providers(asked, providers, provider_scores)[i].did
            == providers[i].did && scored_providers(
            asked,
            providers,
            provider_scores,
        )[i].social_score == provider_scores[i].social,
        scored_intents(v, agent, intents, intent_scores).len() == intents.len(),
        0 <= i < intents.len() ==> scored_intents(v, agent, intents, intent_scores)[i].intent
            == intents[i].intent && scored_intents(
            v,
            agent,
            intents,
            intent_scores,
        )[i].ranking_score == intent_scores[i].ranking,
        scored_edges(edges, scores).len() == edges.len(),
        0 <= i < edges.len() ==> scored_edges(edges, scores)[i].edge == edges[i] && scored_edges(
            edges,
            scores,
        )[i].score == scores[i],
        unscored(scored_edges(edges, scores)) =~= edges,
{
}

/// How an agent answers: with interest to what matches it, with a
/// counter-proposal to another offer or proposal, and else it declines.
pub proof fn lemma_answer_follows_match(score: u64, kind: IntentKind)
    ensures
        response_kind(score, kind) == IntentResponseKind::Interested <==> score >= 75,
        response_kind(score, kind) == IntentResponseKind::Counter <==> score < 75 && (kind
            == IntentKind::Offer || kind == IntentKind::Proposal),
        response_kind(score, kind) == IntentResponseKind::Decline <==> score < 75 && (kind
            == IntentKind::Need || kind == IntentKind::Goal || kind == IntentKind::Status),
{
}

/// An agent blocks another exactly when its own relation to it is a block.
pub proof fn lemma_block_is_own(v: SocietyView, from: Seq<char>, to: Seq<char>)
    ensures
        table::find(v.edges, (from, to)) is None ==> !blocks(v, from, to),
        table::find(v.edges, (from, to)) matches Some(e) ==> (blocks(v, from, to) <==> e.kind
            == RelationKind::Blocked),
{
}

} // verus!
