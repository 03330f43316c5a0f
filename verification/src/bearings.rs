//! What trust and names promise: whom a search reaches, which capacities a ledger
//! opens, what is remembered of work, and that different facts have different
//! keys.
use crate::credit::BilateralCreditView;
use crate::facts::{
    occurrences, CapabilityGrantView, InteractionOutcome, RelationKind, ReputationScoreView,
    SocialEdgeView, TaskDisputeView, TaskResultClaimView, VerifiedCapabilityView,
    WorkspaceOwnershipClaimView, WorkspaceSnapshotView,
};
use crate::ledger::outbound;
use crate::manifest::{first_named, lemma_first_named, names, AgentManifestView, CapabilityDeclView};
use crate::outside;
use crate::reach::{
    after_link, after_visit, arrives, knows, next_visit, search_from, spotless, trusted_by,
    TrustSearchView, FAINT, FIRM,
};
use crate::recommend::Score;
use crate::registry::price_named;
use crate::society::{
    evidence_named, grant_key, ownership_key, proposal_key, snapshot_key, SocietyView,
};
use crate::table;
use crate::task::{ExecutionAttestationView, TaskAcceptanceView, TaskCancellationView, TaskView};
use crate::task_market::{
    acceptance_key, adoption_effects, attestation_key, cancellation_key, dispute_key,
    implied_interaction, implied_snapshot, with_dispute, TaskMarketEffectView,
    TaskMarketProjectionView,
};
use crate::text;
use crate::trust::{
    all_edges, chosen, routed, total, with_edge, with_inbound, with_ledger, with_outbound,
    PaymentPathView, Rooms,
};
use vstd::prelude::*;
use vstd::string::*;

verus! {

/// Another outcome counts once where it is of one of the two kinds, and not at all
/// where it is not.
pub proof fn lemma_outcome_counts_once(
    history: Seq<InteractionOutcome>,
    o: InteractionOutcome,
    a: InteractionOutcome,
    b: InteractionOutcome,
)
    ensures
        occurrences(Seq::empty(), a, b) == 0,
        occurrences(history.push(o), a, b) == occurrences(history, a, b) + if o == a || o == b {
            1nat
        } else {
            0nat
        },
{
    reveal(Seq::filter);
    assert(history.push(o).drop_last() =~= history);
    assert(history.push(o).last() == o);
}

/// An agent knows itself, whomever it holds a relation to, and whomever it
/// remembers; what others hold of it does not count.
pub proof fn lemma_whom_an_agent_knows(v: SocietyView, from: Seq<char>, to: Seq<char>)
    ensures
        knows(v, from, from),
        table::find(v.edges, (from, to)) is Some ==> knows(v, from, to),
        table::find(v.reputations, (from, to)) is Some ==> knows(v, from, to),
        from != to && table::find(v.edges, (from, to)) is None && table::find(
            v.reputations,
            (from, to),
        ) is None ==> !knows(v, from, to),
{
}

/// An agent relies on its own relations alone, on none that it blocks, and on none
/// that failed or were disputed more often than they succeeded.
pub proof fn lemma_relations_relied_on(agent: Seq<char>, e: SocialEdgeView)
    ensures
        trusted_by(agent)(e) ==> e.from == agent && e.kind != RelationKind::Blocked,
        e.from == agent && e.kind != RelationKind::Blocked && e.history.len() == 0
            ==> trusted_by(agent)(e),
        e.from == agent && e.kind != RelationKind::Blocked ==> (trusted_by(agent)(e)
            <==> occurrences(e.history, InteractionOutcome::Failure, InteractionOutcome::Dispute)
            <= occurrences(e.history, InteractionOutcome::Success, InteractionOutcome::Success)),
{
    reveal(Seq::filter);
}

/// One more success never costs a relation, and one more failure never wins one.
pub proof fn lemma_success_keeps_reliance(
    agent: Seq<char>,
    e: SocialEdgeView,
    better: SocialEdgeView,
    worse: SocialEdgeView,
)
    requires
        better == (SocialEdgeView {
            history: e.history.push(InteractionOutcome::Success),
            ..e
        }),
        worse == (SocialEdgeView {
            history: e.history.push(InteractionOutcome::Failure),
            ..e
        }),
    ensures
        trusted_by(agent)(e) ==> trusted_by(agent)(better),
        trusted_by(agent)(worse) ==> trusted_by(agent)(e),
{
    let (s, f, d) = (
        InteractionOutcome::Success,
        InteractionOutcome::Failure,
        InteractionOutcome::Dispute,
    );
    lemma_outcome_counts_once(e.history, s, s, s);
    lemma_outcome_counts_once(e.history, s, f, d);
    lemma_outcome_counts_once(e.history, f, s, s);
    lemma_outcome_counts_once(e.history, f, f, d);
}

/// A memory is spotless from the second success on, until something fails or is
/// disputed, and never again.
pub proof fn lemma_spotless_is_lost_for_good(m: ReputationScoreView, after: ReputationScoreView, o: InteractionOutcome)
    requires
        after.history == m.history.push(o),
    ensures
        o == InteractionOutcome::Failure || o == InteractionOutcome::Dispute ==> !spotless(after),
        spotless(m) && !(o == InteractionOutcome::Failure || o == InteractionOutcome::Dispute)
            ==> spotless(after),
        spotless(m) ==> m.history.len() >= 2,
{
    let (s, f, d) = (
        InteractionOutcome::Success,
        InteractionOutcome::Failure,
        InteractionOutcome::Dispute,
    );
    lemma_outcome_counts_once(m.history, o, s, s);
    lemma_outcome_counts_once(m.history, o, f, d);
    m.history.lemma_filter_len(crate::facts::either(s, s));
}

/// A search begins at its start and goes by the order in which agents were found.
pub proof fn lemma_search_goes_in_order(v: TrustSearchView, from: Seq<char>, target: Seq<char>)
    requires
        v.visited <= v.found.len(),
        v.found.len() < usize::MAX,
    ensures
        next_visit(search_from(from, target)) matches Some(first) && first.0 == from,
        search_from(from, target).target == target,
        next_visit(v) is None <==> v.visited == v.found.len(),
        next_visit(v) matches Some(next) ==> next == v.found[v.visited as int]
            && after_visit(v).visited == v.visited + 1,
        after_visit(v).found == v.found,
{
}

/// A search goes on to an agent exactly when the link is firm, the confidence does
/// not fade, and the agent is neither the target nor found before; who was found
/// keeps the confidence of the first time. It arrives over a firm link alone.
pub proof fn lemma_search_follows_firm_links(
    v: TrustSearchView,
    to: Seq<char>,
    link: Score,
    confidence: Score,
)
    requires
        table::distinct(v.found),
    ensures
        ({
            let after = after_link(v, to, link, confidence);
            let on = link.bits >= FIRM && confidence.bits >= FAINT && to != v.target;
            &&& table::find(v.found, to) is Some ==> after.found == v.found
            &&& table::find(v.found, to) is None && on ==> table::find(after.found, to) == Some(
                confidence,
            )
            &&& !on ==> after.found == v.found
            &&& after.visited == v.visited
            &&& after.target == v.target
        }),
        arrives(v, to, link) <==> link.bits >= FIRM && to == v.target,
{
    table::lemma_put_new_find(v.found, to, confidence, to);
}

proof fn lemma_outbound_edges(
    edges: Seq<((Seq<char>, Seq<char>), u64)>,
    agent: Seq<char>,
    rows: Seq<(Seq<char>, BilateralCreditView)>,
    a: Seq<char>,
    b: Seq<char>,
)
    requires
        table::distinct(edges),
        table::distinct(rows),
    ensures
        ({
            let after = with_outbound(edges, agent, outbound(rows));
            &&& table::distinct(after)
            &&& table::find(after, (a, b)) == if a == agent && table::holds(rows, b) && table::at(
                rows,
                b,
            ).credit_left() > 0 {
                Some(table::at(rows, b).credit_left())
            } else {
                table::find(edges, (a, b))
            }
        }),
    decreases rows.len(),
{
    if rows.len() > 0 {
        let front = rows.drop_last();
        let last = rows.last();
        assert forall|i: int, j: int| 0 <= i < j < front.len() implies #[trigger] front[i].0
            != #[trigger] front[j].0 by {
            assert(rows[i].0 != rows[j].0);
        }
        lemma_outbound_edges(edges, agent, front, a, b);
        let before = with_outbound(edges, agent, outbound(front));
        let left = last.1.credit_left();
        lemma_last_row(rows, b);
        if left > 0 {
            let out = outbound(front).push((last.0, left));
            assert(out.drop_last() =~= outbound(front));
            assert(out.last() == (last.0, left));
            table::lemma_put_find(before, (agent, last.0), left, (a, b));
        }
    } else {
        assert(outbound(rows) =~= Seq::empty());
    }
}

proof fn lemma_last_row(rows: Seq<(Seq<char>, BilateralCreditView)>, k: Seq<char>)
    requires
        table::distinct(rows),
        rows.len() > 0,
    ensures
        rows.last().0 == k ==> table::holds(rows, k) && table::at(rows, k) == rows.last().1
            && !table::holds(rows.drop_last(), k),
        rows.last().0 != k ==> table::find(rows, k) == table::find(rows.drop_last(), k)
            && table::holds(rows, k) == table::holds(rows.drop_last(), k),
{
    let front = rows.drop_last();
    let n = rows.len() - 1;
    if rows.last().0 == k {
        assert(rows[n].0 == k);
        table::lemma_place_unique(rows, k, n);
        if table::holds(front, k) {
            let p = table::place(front, k);
            assert(front[p].0 == k);
            assert(rows[p].0 != rows[n].0);
        }
    } else {
        if table::holds(front, k) {
            let p = table::place(front, k);
            assert(front[p].0 == k);
            assert(rows[p].0 == k);
            table::lemma_place_unique(rows, k, p);
        } else if table::holds(rows, k) {
            let p = table::place(rows, k);
            assert(rows[p].0 == k);
            assert(front[p].0 == k);
        }
    }
}

proof fn lemma_inbound_edges(
    edges: Seq<((Seq<char>, Seq<char>), u64)>,
    agent: Seq<char>,
    rows: Seq<(Seq<char>, BilateralCreditView)>,
    a: Seq<char>,
    b: Seq<char>,
)
    requires
        table::distinct(edges),
        table::distinct(rows),
        forall|i: int| 0 <= i < rows.len() ==> (#[trigger] rows[i]).1.counterparty == rows[i].0,
    ensures
        ({
            let after = with_inbound(edges, agent, table::values(rows));
            &&& table::distinct(after)
            &&& table::find(after, (a, b)) == if b == agent && table::holds(rows, a) && table::at(
                rows,
                a,
            ).debt_left() > 0 {
                Some(table::at(rows, a).debt_left())
            } else {
                table::find(edges, (a, b))
            }
        }),
    decreases rows.len(),
{
    if rows.len() > 0 {
        let front = rows.drop_last();
        let last = rows.last();
        assert forall|i: int, j: int| 0 <= i < j < front.len() implies #[trigger] front[i].0
            != #[trigger] front[j].0 by {
            assert(rows[i].0 != rows[j].0);
        }
        assert forall|i: int| 0 <= i < front.len() implies (#[trigger] front[i]).1.counterparty
            == front[i].0 by {
            assert(rows[i] == front[i]);
        }
        lemma_inbound_edges(edges, agent, front, a, b);
        let before = with_inbound(edges, agent, table::values(front));
        assert(table::values(rows).drop_last() =~= table::values(front));
        assert(table::values(rows).last() == last.1);
        assert(rows[rows.len() - 1].1.counterparty == last.0);
        lemma_last_row(rows, a);
        if last.1.debt_left() > 0 {
            table::lemma_put_find(before, (last.0, agent), last.1.debt_left(), (a, b));
        }
    } else {
        assert(table::values(rows) =~= Seq::empty());
    }
}

/// A ledger opens, towards each counterparty, the credit that can still be
/// extended to it, and from each the debt that can still be taken on with it; a
/// line without room opens nothing, and edges between others stay.
pub proof fn lemma_ledger_opens_what_is_left(
    edges: Seq<((Seq<char>, Seq<char>), u64)>,
    agent: Seq<char>,
    rows: Seq<(Seq<char>, BilateralCreditView)>,
    other: Seq<char>,
    third: Seq<char>,
)
    requires
        table::distinct(edges),
        table::distinct(rows),
        forall|i: int| 0 <= i < rows.len() ==> (#[trigger] rows[i]).1.counterparty == rows[i].0,
        other != agent,
        third != agent,
    ensures
        ({
            let after = with_ledger(edges, agent, rows);
            &&& table::find(rows, other) matches Some(line) ==> {
                &&& line.credit_left() > 0 ==> table::find(after, (agent, other)) == Some(
                    line.credit_left(),
                )
                &&& line.debt_left() > 0 ==> table::find(after, (other, agent)) == Some(
                    line.debt_left(),
                )
                &&& line.credit_left() == 0 ==> table::find(after, (agent, other)) == table::find(
                    edges,
                    (agent, other),
                )
                &&& line.debt_left() == 0 ==> table::find(after, (other, agent)) == table::find(
                    edges,
                    (other, agent),
                )
            }
            &&& table::find(after, (other, third)) == table::find(edges, (other, third))
        }),
{
    let out = with_outbound(edges, agent, outbound(rows));
    lemma_outbound_edges(edges, agent, rows, agent, other);
    lemma_outbound_edges(edges, agent, rows, other, agent);
    lemma_outbound_edges(edges, agent, rows, other, third);
    lemma_inbound_edges(out, agent, rows, agent, other);
    lemma_inbound_edges(out, agent, rows, other, agent);
    lemma_inbound_edges(out, agent, rows, other, third);
}

proof fn lemma_chosen_within_amount(
    rows: Rooms,
    sender: Seq<char>,
    recipient: Seq<char>,
    amount: int,
    paths: Seq<PaymentPathView>,
)
    requires
        chosen(rows, sender, recipient, amount, paths),
        amount >= 0,
    ensures
        total(paths) <= amount,
    decreases paths.len(),
{
    if paths.len() > 0 {
        lemma_chosen_within_amount(rows, sender, recipient, amount, paths.drop_last());
    }
}

/// A payment is never routed beyond its amount, nor over more paths than allowed;
/// no more is tried once the amount is routed.
pub proof fn lemma_routing_stays_within_amount(
    rows: Rooms,
    sender: Seq<char>,
    recipient: Seq<char>,
    amount: int,
    max_paths: int,
    paths: Seq<PaymentPathView>,
)
    requires
        routed(rows, sender, recipient, amount, max_paths, paths),
        amount >= 0,
    ensures
        total(paths) <= amount,
        paths.len() <= max_paths,
        amount == 0 ==> paths.len() == 0,
{
    lemma_chosen_within_amount(rows, sender, recipient, amount, paths);
    if paths.len() > 0 {
        let front = paths.drop_last();
        lemma_total_is_positive(front);
    }
}

proof fn lemma_total_is_positive(paths: Seq<PaymentPathView>)
    ensures
        total(paths) >= 0,
    decreases paths.len(),
{
    if paths.len() > 0 {
        lemma_total_is_positive(paths.drop_last());
    }
}

/// Evidence for a capability is found exactly when some has its name, and what is
/// found has it.
pub proof fn lemma_evidence_is_found_by_name(all: Seq<VerifiedCapabilityView>, name: Seq<char>)
    ensures
        evidence_named(all, name) is Some <==> exists|i: int|
            0 <= i < all.len() && (#[trigger] all[i]).name == name,
        evidence_named(all, name) matches Some(c) ==> c.name == name && all.contains(c),
    decreases all.len(),
{
    if all.len() > 0 {
        let rest = all.skip(1);
        lemma_evidence_is_found_by_name(rest, name);
        if all[0].name == name {
            assert(all.contains(all[0]));
        } else {
            if exists|i: int| 0 <= i < rest.len() && (#[trigger] rest[i]).name == name {
                let i = choose|i: int| 0 <= i < rest.len() && (#[trigger] rest[i]).name == name;
                assert(all[i + 1].name == name);
            }
            if exists|i: int| 0 <= i < all.len() && (#[trigger] all[i]).name == name {
                let i = choose|i: int| 0 <= i < all.len() && (#[trigger] all[i]).name == name;
                assert(rest[i - 1].name == name);
            }
            if let Some(c) = evidence_named(rest, name) {
                let i = rest.index_of(c);
                assert(all[i + 1] == c);
            }
        }
    }
}

/// Work is remembered as an interaction of the publisher with the executor, as a
/// success or a failure as the result was, at the time of the claim, unless the two
/// are one; and as a snapshot by the executor, where the receipt tells workspace
/// and output.
pub proof fn lemma_work_is_remembered(task: TaskView, claim: TaskResultClaimView)
    ensures
        ({
            let i = implied_interaction(task, claim);
            &&& i.from == task.publisher
            &&& i.to == claim.result.executor
            &&& i.timestamp == claim.timestamp
            &&& i.evidence == Some(claim.result.task_id)
            &&& claim.result.success ==> i.outcome == InteractionOutcome::Success
            &&& !claim.result.success ==> i.outcome == InteractionOutcome::Failure
        }),
        task.publisher == claim.result.executor ==> forall|k: int|
            0 <= k < adoption_effects(task, claim).len() ==> !(#[trigger] adoption_effects(
                task,
                claim,
            )[k] is Interaction),
        task.publisher != claim.result.executor ==> adoption_effects(task, claim).len() > 0
            && adoption_effects(task, claim).last() == TaskMarketEffectView::Interaction(
            implied_interaction(task, claim),
        ),
        implied_snapshot(claim.result) is Some <==> (claim.result.receipt matches Some(r)
            && r.workspace is Some && r.output_root is Some),
        implied_snapshot(claim.result) matches Some(s) ==> {
            let r = claim.result.receipt->Some_0;
            &&& r.workspace == Some(s.workspace)
            &&& r.output_root == Some(s.root)
            &&& s.actor == r.executor
            &&& s.timestamp == r.finished_at
            &&& s.label == Some("task-result"@)
        },
{
}

/// A dispute is remembered once, as one of the disputer with its target at its
/// time, and is known from then on.
pub proof fn lemma_dispute_is_remembered_once(v: TaskMarketProjectionView, d: TaskDisputeView)
    requires
        table::distinct(v.task_disputes),
    ensures
        ({
            let (after, effect) = with_dispute(v, d);
            &&& table::find(after.task_disputes, dispute_key(d)) == Some(d)
            &&& table::find(v.task_disputes, dispute_key(d)) is Some <==> effect is None
            &&& effect matches Some(e) ==> (e matches TaskMarketEffectView::Interaction(i)
                && i.from == d.disputer && i.to == d.target && i.outcome
                == InteractionOutcome::Dispute && i.timestamp == d.timestamp)
            &&& with_dispute(after, d).1 is None
            &&& after.tasks == v.tasks
            &&& after.task_results == v.task_results
        }),
{
    table::lemma_put_find(v.task_disputes, dispute_key(d), d, dispute_key(d));
}

/// A number is told by its decimal digits.
pub proof fn lemma_digits_tell_number(m: nat, n: nat)
    requires
        text::decimal(m) == text::decimal(n),
    ensures
        m == n,
    decreases m,
{
    let (a, b) = (text::decimal(m), text::decimal(n));
    assert(a.last() == b.last());
    lemma_digits(m);
    lemma_digits(n);
    if m >= 10 && n >= 10 {
        assert(a.drop_last() =~= text::decimal(m / 10));
        assert(b.drop_last() =~= text::decimal(n / 10));
        lemma_digits_tell_number(m / 10, n / 10);
    } else if m >= 10 {
        lemma_digits(m / 10);
        assert(a.len() == text::decimal(m / 10).len() + 1);
    } else if n >= 10 {
        lemma_digits(n / 10);
        assert(b.len() == text::decimal(n / 10).len() + 1);
    }
}

proof fn lemma_digits(n: nat)
    ensures
        text::decimal(n).len() >= 1,
        text::decimal(n).last() as u32 == ('0' as u32) + n % 10,
        n < 10 ==> text::decimal(n).len() == 1,
    decreases n,
{
    if n >= 10 {
        lemma_digits(n / 10);
    }
}

proof fn lemma_between(p: Seq<char>, x: Seq<char>, y: Seq<char>, s: Seq<char>)
    requires
        p + x + s == p + y + s,
    ensures
        x == y,
{
    let (a, b) = (p + x + s, p + y + s);
    assert(a.len() == b.len());
    assert forall|i: int| 0 <= i < x.len() implies x[i] == y[i] by {
        assert(a[p.len() + i] == x[i]);
        assert(b[p.len() + i] == y[i]);
    }
    assert(x =~= y);
}

proof fn lemma_one_part_tells(s: Seq<Seq<char>>, t: Seq<Seq<char>>, sep: Seq<char>, i: int)
    requires
        s.len() == t.len(),
        0 <= i < s.len(),
        forall|j: int| 0 <= j < s.len() && j != i ==> #[trigger] s[j] == t[j],
        text::joined(s, sep) == text::joined(t, sep),
    ensures
        s[i] == t[i],
    decreases s.len(),
{
    if s.len() > 1 {
        let (a, b) = (s.drop_last(), t.drop_last());
        let n = s.len() - 1;
        let e = Seq::<char>::empty();
        if i == n {
            assert(a =~= b);
            let p = text::joined(a, sep) + sep;
            assert(p + s[n] + e =~= text::joined(s, sep));
            assert(p + t[n] + e =~= text::joined(t, sep));
            lemma_between(p, s[n], t[n], e);
        } else {
            let q = sep + s[n];
            assert(s[n] == t[n]);
            assert(e + text::joined(a, sep) + q =~= text::joined(s, sep));
            assert(e + text::joined(b, sep) + q =~= text::joined(t, sep));
            lemma_between(e, text::joined(a, sep), text::joined(b, sep), q);
            assert forall|j: int| 0 <= j < a.len() && j != i implies #[trigger] a[j] == b[j] by {
                assert(s[j] == t[j]);
            }
            lemma_one_part_tells(a, b, sep, i);
            assert(a[i] == s[i] && b[i] == t[i]);
        }
    }
}

/// Keys of four parts that differ in one part alone are different.
proof fn lemma_four_apart(
    a: Seq<char>,
    b: Seq<char>,
    c: Seq<char>,
    d: Seq<char>,
    w: Seq<char>,
    x: Seq<char>,
    y: Seq<char>,
    z: Seq<char>,
)
    requires
        text::joined(seq![a, b, c, d], "|"@) == text::joined(seq![w, x, y, z], "|"@),
    ensures
        b == x && c == y && d == z ==> a == w,
        a == w && c == y && d == z ==> b == x,
        a == w && b == x && d == z ==> c == y,
        a == w && b == x && c == y ==> d == z,
{
    let (s, t) = (seq![a, b, c, d], seq![w, x, y, z]);
    if b == x && c == y && d == z {
        lemma_one_part_tells(s, t, "|"@, 0);
    }
    if a == w && c == y && d == z {
        lemma_one_part_tells(s, t, "|"@, 1);
    }
    if a == w && b == x && d == z {
        lemma_one_part_tells(s, t, "|"@, 2);
    }
    if a == w && b == x && c == y {
        lemma_one_part_tells(s, t, "|"@, 3);
    }
}

proof fn lemma_hex_tells_bytes(a: Seq<u8>, b: Seq<u8>)
    requires
        outside::hex_text(a) == outside::hex_text(b),
    ensures
        a == b,
{
    outside::lemma_hex_roundtrip(a);
    outside::lemma_hex_roundtrip(b);
}

/// Two grants that differ in workspace, issuer, subject or end alone have
/// different keys.
pub proof fn lemma_grants_told_apart(g: CapabilityGrantView, h: CapabilityGrantView)
    requires
        grant_key(g) == grant_key(h),
    ensures
        ({
            let (a, b) = (g.capability, h.capability);
            &&& a.issuer == b.issuer && a.subject == b.subject && a.expires_at == b.expires_at
                ==> a.workspace == b.workspace
            &&& a.workspace == b.workspace && a.subject == b.subject && a.expires_at
                == b.expires_at ==> a.issuer == b.issuer
            &&& a.workspace == b.workspace && a.issuer == b.issuer && a.expires_at == b.expires_at
                ==> a.subject == b.subject
            &&& a.workspace == b.workspace && a.issuer == b.issuer && a.subject == b.subject
                ==> a.expires_at == b.expires_at
        }),
{
    let (a, b) = (g.capability, h.capability);
    lemma_four_apart(
        outside::hex_text(a.workspace),
        a.issuer,
        a.subject,
        text::decimal(a.expires_at as nat),
        outside::hex_text(b.workspace),
        b.issuer,
        b.subject,
        text::decimal(b.expires_at as nat),
    );
    if outside::hex_text(a.workspace) == outside::hex_text(b.workspace) {
        lemma_hex_tells_bytes(a.workspace, b.workspace);
    }
    if text::decimal(a.expires_at as nat) == text::decimal(b.expires_at as nat) {
        lemma_digits_tell_number(a.expires_at as nat, b.expires_at as nat);
    }
}

/// Two snapshots that differ in workspace, agent, root or time alone have
/// different keys.
pub proof fn lemma_snapshots_told_apart(a: WorkspaceSnapshotView, b: WorkspaceSnapshotView)
    requires
        snapshot_key(a) == snapshot_key(b),
    ensures
        a.actor == b.actor && a.root == b.root && a.timestamp == b.timestamp ==> a.workspace
            == b.workspace,
        a.workspace == b.workspace && a.root == b.root && a.timestamp == b.timestamp ==> a.actor
            == b.actor,
        a.workspace == b.workspace && a.actor == b.actor && a.timestamp == b.timestamp ==> a.root
            == b.root,
        a.workspace == b.workspace && a.actor == b.actor && a.root == b.root ==> a.timestamp
            == b.timestamp,
{
    lemma_four_apart(
        outside::hex_text(a.workspace),
        a.actor,
        outside::hex_text(a.root),
        text::decimal(a.timestamp as nat),
        outside::hex_text(b.workspace),
        b.actor,
        outside::hex_text(b.root),
        text::decimal(b.timestamp as nat),
    );
    if outside::hex_text(a.workspace) == outside::hex_text(b.workspace) {
        lemma_hex_tells_bytes(a.workspace, b.workspace);
    }
    if outside::hex_text(a.root) == outside::hex_text(b.root) {
        lemma_hex_tells_bytes(a.root, b.root);
    }
    if text::decimal(a.timestamp as nat) == text::decimal(b.timestamp as nat) {
        lemma_digits_tell_number(a.timestamp as nat, b.timestamp as nat);
    }
}

/// Two claims on workspaces that differ in workspace or owner alone have
/// different keys.
pub proof fn lemma_ownership_claims_told_apart(
    a: WorkspaceOwnershipClaimView,
    b: WorkspaceOwnershipClaimView,
)
    requires
        ownership_key(a) == ownership_key(b),
        a.previous_owner == b.previous_owner,
        a.root == b.root,
    ensures
        a.owner == b.owner ==> a.workspace == b.workspace,
        a.workspace == b.workspace ==> a.owner == b.owner,
{
    lemma_four_apart(
        outside::hex_text(a.workspace),
        a.owner,
        crate::facts::or_empty(a.previous_owner),
        crate::society::root_text(a.root),
        outside::hex_text(b.workspace),
        b.owner,
        crate::facts::or_empty(b.previous_owner),
        crate::society::root_text(b.root),
    );
    if outside::hex_text(a.workspace) == outside::hex_text(b.workspace) {
        lemma_hex_tells_bytes(a.workspace, b.workspace);
    }
}

/// Two disputes that differ in task, disputer or target alone have different keys.
pub proof fn lemma_disputes_told_apart(a: TaskDisputeView, b: TaskDisputeView)
    requires
        dispute_key(a) == dispute_key(b),
        a.claim_id == b.claim_id,
    ensures
        a.disputer == b.disputer && a.target == b.target ==> a.task_id == b.task_id,
        a.task_id == b.task_id && a.target == b.target ==> a.disputer == b.disputer,
        a.task_id == b.task_id && a.disputer == b.disputer ==> a.target == b.target,
{
    lemma_four_apart(
        a.task_id,
        a.disputer,
        a.target,
        crate::facts::or_empty(a.claim_id),
        b.task_id,
        b.disputer,
        b.target,
        crate::facts::or_empty(b.claim_id),
    );
}

/// Two acceptances that differ in publisher, bidder, price or time alone have
/// different keys.
pub proof fn lemma_acceptances_told_apart(a: TaskAcceptanceView, b: TaskAcceptanceView)
    requires
        acceptance_key(a) == acceptance_key(b),
    ensures
        a.bidder == b.bidder && a.price == b.price && a.accepted_at == b.accepted_at
            ==> a.publisher == b.publisher,
        a.publisher == b.publisher && a.price == b.price && a.accepted_at == b.accepted_at
            ==> a.bidder == b.bidder,
        a.publisher == b.publisher && a.bidder == b.bidder && a.accepted_at == b.accepted_at
            ==> a.price == b.price,
        a.publisher == b.publisher && a.bidder == b.bidder && a.price == b.price ==> a.accepted_at
            == b.accepted_at,
{
    lemma_four_apart(
        a.publisher,
        a.bidder,
        text::decimal(a.price as nat),
        text::decimal(a.accepted_at as nat),
        b.publisher,
        b.bidder,
        text::decimal(b.price as nat),
        text::decimal(b.accepted_at as nat),
    );
    if text::decimal(a.price as nat) == text::decimal(b.price as nat) {
        lemma_digits_tell_number(a.price as nat, b.price as nat);
    }
    if text::decimal(a.accepted_at as nat) == text::decimal(b.accepted_at as nat) {
        lemma_digits_tell_number(a.accepted_at as nat, b.accepted_at as nat);
    }
}

/// Two cancellations that differ in publisher, reason or time alone have different
/// keys.
pub proof fn lemma_cancellations_told_apart(a: TaskCancellationView, b: TaskCancellationView)
    requires
        cancellation_key(a) == cancellation_key(b),
    ensures
        a.reason == b.reason && a.cancelled_at == b.cancelled_at ==> a.publisher == b.publisher,
        a.publisher == b.publisher && a.cancelled_at == b.cancelled_at ==> a.reason == b.reason,
        a.publisher == b.publisher && a.reason == b.reason ==> a.cancelled_at == b.cancelled_at,
{
    let s = seq![a.publisher, a.reason, text::decimal(a.cancelled_at as nat)];
    let t = seq![b.publisher, b.reason, text::decimal(b.cancelled_at as nat)];
    if a.reason == b.reason && a.cancelled_at == b.cancelled_at {
        lemma_one_part_tells(s, t, "|"@, 0);
    }
    if a.publisher == b.publisher && a.cancelled_at == b.cancelled_at {
        lemma_one_part_tells(s, t, "|"@, 1);
    }
    if a.publisher == b.publisher && a.reason == b.reason {
        lemma_one_part_tells(s, t, "|"@, 2);
        lemma_digits_tell_number(a.cancelled_at as nat, b.cancelled_at as nat);
    }
}

/// Attestations of one execution by two attestors have different keys, and so have
/// those of two executors, of two receipts, or of two outputs.
pub proof fn lemma_attestations_told_apart(
    a: ExecutionAttestationView,
    b: ExecutionAttestationView,
)
    requires
        attestation_key(a) == attestation_key(b),
        a.task_id == b.task_id,
    ensures
        ({
            let who = a.executor == b.executor;
            let by = a.attestor == b.attestor;
            let on = a.receipt_signature_hex == b.receipt_signature_hex;
            let out = a.stdout_cid == b.stdout_cid;
            let err = a.stderr_cid == b.stderr_cid;
            &&& by && on && out && err ==> who
            &&& who && on && out && err ==> by
            &&& who && by && out && err ==> on
            &&& who && by && on && err ==> out
            &&& who && by && on && out ==> err
        }),
{
    let s = seq![
        a.task_id,
        a.executor,
        a.attestor,
        a.receipt_signature_hex,
        outside::hex_text(a.stdout_cid),
        outside::hex_text(a.stderr_cid),
    ];
    let t = seq![
        b.task_id,
        b.executor,
        b.attestor,
        b.receipt_signature_hex,
        outside::hex_text(b.stdout_cid),
        outside::hex_text(b.stderr_cid),
    ];
    let who = a.executor == b.executor;
    let by = a.attestor == b.attestor;
    let on = a.receipt_signature_hex == b.receipt_signature_hex;
    let out = a.stdout_cid == b.stdout_cid;
    let err = a.stderr_cid == b.stderr_cid;
    if by && on && out && err {
        lemma_one_part_tells(s, t, "|"@, 1);
    }
    if who && on && out && err {
        lemma_one_part_tells(s, t, "|"@, 2);
    }
    if who && by && out && err {
        lemma_one_part_tells(s, t, "|"@, 3);
    }
    if who && by && on && err {
        lemma_one_part_tells(s, t, "|"@, 4);
        lemma_hex_tells_bytes(a.stdout_cid, b.stdout_cid);
    }
    if who && by && on && out {
        lemma_one_part_tells(s, t, "|"@, 5);
        lemma_hex_tells_bytes(a.stderr_cid, b.stderr_cid);
    }
}

/// Two proposals of one collective, and two collectives with proposals of one
/// name, have different keys.
pub proof fn lemma_proposals_told_apart(
    collective: Seq<char>,
    proposal: Seq<char>,
    other: Seq<char>,
    second: Seq<char>,
)
    requires
        proposal_key(collective, proposal) == proposal_key(other, second),
    ensures
        collective == other ==> proposal == second,
        proposal == second ==> collective == other,
{
    crate::protocol::lemma_two_parts(collective, proposal);
    crate::protocol::lemma_two_parts(other, second);
    let e = Seq::<char>::empty();
    if collective == other {
        let p = collective.push('|');
        assert(p + proposal + e =~= p + proposal);
        assert(p + second + e =~= p + second);
        lemma_between(p, proposal, second, e);
    }
    if proposal == second {
        let s = e.push('|') + proposal;
        assert(e + collective + s =~= collective.push('|') + proposal);
        assert(e + other + s =~= other.push('|') + proposal);
        lemma_between(e, collective, other, s);
    }
}

/// White space alone is blank, and nothing else is.
pub proof fn lemma_blank_texts(a: Seq<char>, b: Seq<char>)
    ensures
        text::blank(Seq::empty()),
        text::blank(a + b) <==> text::blank(a) && text::blank(b),
        a.len() > 0 && 'a' <= a[0] <= 'z' ==> !text::blank(a),
{
    if text::blank(a + b) {
        assert forall|i: int| 0 <= i < a.len() implies text::white(#[trigger] a[i]) by {
            assert((a + b)[i] == a[i]);
        }
        assert forall|i: int| 0 <= i < b.len() implies text::white(#[trigger] b[i]) by {
            assert((a + b)[a.len() + i] == b[i]);
        }
    }
}

/// Lower case is lower case already, and keeps the length.
pub proof fn lemma_lower_case_is_stable(s: Seq<char>)
    ensures
        text::lower(text::lower(s)) == text::lower(s),
        text::lower(s).len() == s.len(),
{
    assert(text::lower(text::lower(s)) =~= text::lower(s)) by {
        assert forall|i: int| 0 <= i < s.len() implies text::lower_char(
            text::lower_char(#[trigger] s[i]),
        ) == text::lower_char(s[i]) by {
            if 'A' as u32 <= s[i] as u32 <= 'Z' as u32 {
                assert(text::lower_char(s[i]) as u32 == s[i] as u32 + 32);
            }
        }
    }
}

/// The edges of several ledgers are those of each in turn.
pub proof fn lemma_ledgers_add_up(
    ledgers: Seq<(Seq<char>, Seq<(Seq<char>, BilateralCreditView)>)>,
    agent: Seq<char>,
    rows: Seq<(Seq<char>, BilateralCreditView)>,
)
    ensures
        all_edges(Seq::empty()).len() == 0,
        all_edges(ledgers.push((agent, rows))) == with_ledger(all_edges(ledgers), agent, rows),
{
    assert(ledgers.push((agent, rows)).drop_last() =~= ledgers);
}

/// An edge without capacity is left out; any other replaces the one before it, and
/// no edge but that changes.
pub proof fn lemma_edge_is_opened(
    edges: Seq<((Seq<char>, Seq<char>), u64)>,
    from: Seq<char>,
    to: Seq<char>,
    capacity: u64,
    a: Seq<char>,
    b: Seq<char>,
)
    requires
        table::distinct(edges),
    ensures
        capacity == 0 ==> with_edge(edges, from, to, capacity) == edges,
        capacity > 0 ==> table::find(with_edge(edges, from, to, capacity), (from, to)) == Some(
            capacity,
        ),
        (a, b) != (from, to) ==> table::find(with_edge(edges, from, to, capacity), (a, b))
            == table::find(edges, (a, b)),
{
    table::lemma_put_find(edges, (from, to), capacity, (a, b));
}

/// Among ASCII characters, the space and the five controls from tab to carriage
/// return are white, and no other is.
pub proof fn lemma_white_ascii(c: char)
    requires
        (c as u32) < 128,
    ensures
        text::white(c) <==> c == ' ' || (9 <= c as u32 <= 13),
{
}

/// Confidence fades below what makes a link firm, and nothing is beyond certainty.
pub proof fn lemma_grades_of_confidence()
    ensures
        0 < FAINT < FIRM < crate::reach::CERTAIN,
        search_from(Seq::empty(), Seq::empty()).found[0].1.bits == crate::reach::CERTAIN,
{
}

/// Of several declarations under one name the first counts, and with it its price.
pub proof fn lemma_first_declaration_counts(
    decls: Seq<CapabilityDeclView>,
    name: Seq<char>,
    k: int,
)
    requires
        0 <= k < decls.len(),
        decls[k].name == name,
        forall|i: int| 0 <= i < k ==> (#[trigger] decls[i]).name != name,
    ensures
        first_named(decls, name) == Some(decls[k]),
    decreases decls.len(),
{
    if k > 0 {
        let rest = decls.skip(1);
        assert(decls[0].name != name);
        assert(rest[k - 1] == decls[k]);
        assert forall|i: int| 0 <= i < k - 1 implies (#[trigger] rest[i]).name != name by {
            assert(rest[i] == decls[i + 1]);
        }
        lemma_first_declaration_counts(rest, name, k - 1);
    }
}

/// The price of an agent for a capability is that of its first declaration of it;
/// one who does not declare it has none that could be beaten.
pub proof fn lemma_price_is_declared(m: AgentManifestView, name: Seq<char>)
    ensures
        !names(m.provides, name) ==> price_named(m, name) == u64::MAX,
        first_named(m.provides, name) matches Some(d) ==> price_named(m, name)
            == d.price_per_unit,
{
    lemma_first_named(m.provides, name);
}

} // verus!
