//! How far trust reaches through the relations of a society.
//!
//! A search starts at an agent and follows relations that earned trust. The
//! confidence along a chain of relations is the product of their scores, which
//! is handed in; whom to visit, in what order and when to stop is decided here.
use crate::facts::{
    occurrences, InteractionOutcome, RelationKind, ReputationScore, ReputationScoreView,
    SocialEdge, SocialEdgeView,
};
use crate::order;
use crate::recommend::Score;
use crate::society::{by_agents, by_pair, touching, Society, SocietyView};
use crate::table::{self, Key, Table};
use crate::twin::Twin;
use crate::types::Did;
use vstd::prelude::*;

verus! {

/// The bits of 1.0.
pub const CERTAIN: u64 = 0x3FF0_0000_0000_0000;

/// The bits of 0.55: no relation below this score is followed.
pub const FIRM: u64 = 0x3FE1_9999_9999_999A;

/// The bits of 0.30: no chain below this confidence is continued.
pub const FAINT: u64 = 0x3FD3_3333_3333_3333;

/// Whether an agent knows another from a relation or from memory.
pub open spec fn knows(v: SocietyView, from: Seq<char>, to: Seq<char>) -> bool {
    from == to || table::holds(v.edges, (from, to)) || table::holds(v.reputations, (from, to))
}

/// Whether an agent knows another, so that nothing needs to be searched.
pub fn acquainted(society: &Society, from: &Did, to: &Did) -> (r: bool)
    ensures
        r == knows(society.deep_view(), from.deep_view(), to.deep_view()),
{
    from.same(to) || society.edge(from, to).is_some() || society.reputation(from, to).is_some()
}

/// Relations of an agent that are not blocked and did not fail more often than
/// they succeeded.
pub open spec fn trusted_by(agent: Seq<char>) -> spec_fn(SocialEdgeView) -> bool {
    |e: SocialEdgeView|
        e.from == agent && e.kind != RelationKind::Blocked && occurrences(
            e.history,
            InteractionOutcome::Failure,
            InteractionOutcome::Dispute,
        ) <= occurrences(e.history, InteractionOutcome::Success, InteractionOutcome::Success)
}

/// The relations along which the trust of an agent may be followed.
pub fn trust_links<'a>(society: &'a Society, agent: &Did) -> (r: Vec<&'a SocialEdge>)
    ensures
        r.deep_view() == order::sort_by_key(
            table::values(society.deep_view().edges).filter(order::every()),
            by_pair(),
        ).filter(trusted_by(agent.deep_view())),
{
    let ghost test = trusted_by(agent.deep_view());
    let keep = |e: &SocialEdge| -> (b: bool)
        ensures
            b == test(e.deep_view()),
        { e.from.same(agent) && e.kind != RelationKind::Blocked && e.failures() <= e.successes() };
    order::kept(society.edges(), keep, Ghost(test))
}

/// A breadth-first search for an agent.
#[derive(Debug)]
pub struct TrustSearch {
    target: Did,
    found: Table<Did, Score>,
    next: usize,
}

/// The mathematical form of [`TrustSearch`].
pub struct TrustSearchView {
    /// Who is searched for.
    pub target: Seq<char>,
    /// The agents found so far, with the confidence in them.
    pub found: Seq<(Seq<char>, Score)>,
    /// How many of them were visited.
    pub visited: nat,
}

impl DeepView for TrustSearch {
    type V = TrustSearchView;

    closed spec fn deep_view(&self) -> TrustSearchView {
        TrustSearchView {
            target: self.target.deep_view(),
            found: self.found.deep_view(),
            visited: self.next as nat,
        }
    }
}

/// A search that has not left its start.
pub open spec fn search_from(from: Seq<char>, target: Seq<char>) -> TrustSearchView {
    TrustSearchView { target, found: seq![(from, Score { bits: CERTAIN })], visited: 0 }
}

/// Whom a search visits next.
pub open spec fn next_visit(v: TrustSearchView) -> Option<(Seq<char>, Score)> {
    if v.visited < v.found.len() {
        Some(v.found[v.visited as int])
    } else {
        None
    }
}

/// A search after a visit.
pub open spec fn after_visit(v: TrustSearchView) -> TrustSearchView {
    if v.visited < v.found.len() {
        TrustSearchView { visited: v.visited + 1, ..v }
    } else {
        v
    }
}

/// Whether a relation with a score leads a search to its target.
pub open spec fn arrives(v: TrustSearchView, to: Seq<char>, link: Score) -> bool {
    link.bits >= FIRM && to == v.target
}

/// A search after a relation with a score was followed to an agent, where the
/// chain has a confidence.
pub open spec fn after_link(
    v: TrustSearchView,
    to: Seq<char>,
    link: Score,
    confidence: Score,
) -> TrustSearchView {
    if link.bits >= FIRM && to != v.target && confidence.bits >= FAINT {
        TrustSearchView { found: table::put_new(v.found, to, confidence), ..v }
    } else {
        v
    }
}

impl TrustSearch {
    /// Starts a search.
    pub fn new(from: &Did, target: &Did) -> (r: Self)
        ensures
            r.deep_view() == search_from(from.deep_view(), target.deep_view()),
    {
        let mut found: Table<Did, Score> = Table::new();
        found.insert(from.twin(), Score { bits: CERTAIN });
        let r = TrustSearch { target: target.twin(), found, next: 0 };
        assert(r.deep_view().found =~= search_from(from.deep_view(), target.deep_view()).found);
        r
    }

    /// The next agent to visit, with the confidence in it.
    pub fn visit(&mut self) -> (r: Option<(Did, Score)>)
        ensures
            r.deep_view() == next_visit(old(self).deep_view()),
            final(self).deep_view() == after_visit(old(self).deep_view()),
    {
        if self.next < self.found.len() {
            let agent = self.found.key_at(self.next).twin();
            let confidence = *self.found.value_at(self.next);
            self.next = self.next + 1;
            Some((agent, confidence))
        } else {
            None
        }
    }

    /// Follows a relation with a score to an agent; gives the confidence of the
    /// chain where it arrives at the target.
    pub fn follow(&mut self, to: &Did, link: Score, confidence: Score) -> (r: Option<Score>)
        ensures
            r == (if arrives(old(self).deep_view(), to.deep_view(), link) {
                Some(confidence)
            } else {
                None
            }),
            final(self).deep_view() == after_link(
                old(self).deep_view(),
                to.deep_view(),
                link,
                confidence,
            ),
    {
        if link.bits < FIRM {
            return None;
        }
        if to.same(&self.target) {
            return Some(confidence);
        }
        if confidence.bits >= FAINT {
            self.found.insert_new(to.twin(), confidence);
        }
        None
    }
}

/// A search visits agents in the order in which it found them, and none twice:
/// following a relation keeps what was found and adds at most one agent, who is
/// new.
pub proof fn lemma_search_visits_once(
    v: TrustSearchView,
    to: Seq<char>,
    link: Score,
    confidence: Score,
)
    requires
        table::distinct(v.found),
    ensures
        table::distinct(after_link(v, to, link, confidence).found),
        v.found.is_prefix_of(after_link(v, to, link, confidence).found),
        after_link(v, to, link, confidence).found.len() <= v.found.len() + 1,
{
    let after = after_link(v, to, link, confidence).found;
    if after.len() != v.found.len() {
        table::lemma_put_distinct(v.found, to, confidence);
    }
    assert(v.found =~= after.subrange(0, v.found.len() as int));
}

/// Rows of memories of an agent.
pub open spec fn memories_of(target: Seq<char>) -> spec_fn(
    ((Seq<char>, Seq<char>), ReputationScoreView),
) -> bool {
    |row: ((Seq<char>, Seq<char>), ReputationScoreView)| row.0.1 == target
}

/// What others remember of an agent, with who remembers it.
pub fn witnesses<'a>(society: &'a Society, target: &Did) -> (r: Vec<
    (&'a (Did, Did), &'a ReputationScore),
>)
    ensures
        r.deep_view() == order::sort_by_key(
            society.deep_view().reputations.filter(touching(Some(target.deep_view()))),
            by_agents(),
        ).filter(memories_of(target.deep_view())),
{
    let all = society.agent_reputations(target);
    let ghost rows = all.deep_view();
    let ghost keep = memories_of(target.deep_view());
    let mut r: Vec<(&'a (Did, Did), &'a ReputationScore)> = Vec::new();
    let mut i: usize = 0;
    proof {
        reveal(Seq::filter);
        assert(r.deep_view() =~= rows.subrange(0, 0).filter(keep));
    }
    while i < all.len()
        invariant
            i <= all@.len(),
            rows == all.deep_view(),
            keep == memories_of(target.deep_view()),
            r.deep_view() == rows.subrange(0, i as int).filter(keep),
        decreases all@.len() - i,
    {
        proof {
            reveal(Seq::filter);
            let upto = rows.subrange(0, i + 1);
            assert(upto.drop_last() =~= rows.subrange(0, i as int));
            assert(upto.last() == all@[i as int].deep_view());
        }
        let pair = all[i].0;
        if pair.1.same(target) {
            let ghost before = r.deep_view();
            r.push((pair, all[i].1));
            assert(r.deep_view() =~= before.push(all@[i as int].deep_view()));
        }
        i = i + 1;
    }
    assert(rows.subrange(0, i as int) =~= rows);
    r
}

/// Whether a memory holds at least two successes and no failure.
pub open spec fn spotless(v: ReputationScoreView) -> bool {
    occurrences(v.history, InteractionOutcome::Success, InteractionOutcome::Success) >= 2
        && occurrences(v.history, InteractionOutcome::Failure, InteractionOutcome::Dispute) == 0
}

/// Whether a memory is praise: at least two successes and no failure.
pub fn is_praise(score: &ReputationScore) -> (r: bool)
    ensures
        r == spotless(score.deep_view()),
{
    score.successes() >= 2 && score.failures() == 0
}

} // verus!
