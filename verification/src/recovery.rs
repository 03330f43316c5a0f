//! Succession of identities: rotation by the holder, and recovery by guardians.
use crate::facts::{
    IdentityRecoveryApproval, IdentityRecoveryApprovalView, IdentityRecoveryPolicy,
    IdentityRecoveryPolicyView, IdentityRotation, IdentityRotationView,
};
use crate::order::{self, KeyPart, KeyPartView, SortKey};
use crate::table::{self, Group, Key, Table};
use crate::text;
use crate::twin::Twin;
use crate::types::Did;
use vstd::prelude::*;
use vstd::string::*;

verus! {

/// Which identity follows which, and what guardians have approved.
#[derive(Debug, PartialEq, Eq)]
pub struct Succession {
    pub rotations: Table<Did, Did>,
    pub policies: Table<Did, IdentityRecoveryPolicy>,
    pub approvals: Table<String, IdentityRecoveryApproval>,
}

/// The mathematical form of [`Succession`].
#[verifier::ext_equal]
pub struct SuccessionView {
    pub rotations: Seq<(Seq<char>, Seq<char>)>,
    pub policies: Seq<(Seq<char>, IdentityRecoveryPolicyView)>,
    pub approvals: Seq<(Seq<char>, IdentityRecoveryApprovalView)>,
}

impl DeepView for Succession {
    type V = SuccessionView;

    closed spec fn deep_view(&self) -> SuccessionView {
        SuccessionView {
            rotations: self.rotations.deep_view(),
            policies: self.policies.deep_view(),
            approvals: self.approvals.deep_view(),
        }
    }
}

impl Twin for Succession {
    fn twin(&self) -> (r: Self) {
        Succession {
            rotations: self.rotations.twin(),
            policies: self.policies.twin(),
            approvals: self.approvals.twin(),
        }
    }
}

impl Clone for Succession {
    fn clone(&self) -> (r: Self)
        ensures
            r.deep_view() == self.deep_view(),
    {
        self.twin()
    }
}

/// Approvals by time and guardian.
pub open spec fn by_approval() -> spec_fn(IdentityRecoveryApprovalView) -> SortKey {
    |v: IdentityRecoveryApprovalView|
        seq![
            KeyPartView::Num(v.approved_at as int),
            KeyPartView::Text(v.guardian),
        ]
}

fn by_approval_of(v: &IdentityRecoveryApproval) -> (k: Vec<KeyPart>)
    ensures
        k.deep_view() == by_approval()(v.deep_view()),
{
    let k = vec![
            KeyPart::Num(v.approved_at as i128),
            KeyPart::Text(v.guardian.to_string()),
        ];
    assert(k.deep_view() =~= by_approval()(v.deep_view()));
    k
}

/// Rotations by time and successor.
pub open spec fn by_rotation() -> spec_fn(IdentityRotationView) -> SortKey {
    |v: IdentityRotationView|
        seq![
            KeyPartView::Num(v.rotated_at as int),
            KeyPartView::Text(v.next),
        ]
}

fn by_rotation_of(v: &IdentityRotation) -> (k: Vec<KeyPart>)
    ensures
        k.deep_view() == by_rotation()(v.deep_view()),
{
    let k = vec![
            KeyPart::Num(v.rotated_at as i128),
            KeyPart::Text(v.next.to_string()),
        ];
    assert(k.deep_view() =~= by_rotation()(v.deep_view()));
    k
}

/// Identities by text.
pub open spec fn by_name() -> spec_fn(Seq<char>) -> SortKey {
    |v: Seq<char>|
        seq![
            KeyPartView::Text(v),
        ]
}

pub fn by_name_of(v: &Did) -> (k: Vec<KeyPart>)
    ensures
        k.deep_view() == by_name()(v.deep_view()),
{
    let k = vec![
            KeyPart::Text(v.to_string()),
        ];
    assert(k.deep_view() =~= by_name()(v.deep_view()));
    k
}

/// The identity itself tells identities apart.
pub open spec fn name_mark() -> spec_fn(Seq<char>) -> Seq<char> {
    |v: Seq<char>| v
}

/// A policy with its guardians in order and none twice.
pub open spec fn tidy(p: IdentityRecoveryPolicyView) -> IdentityRecoveryPolicyView {
    IdentityRecoveryPolicyView {
        guardians: order::without_repeats(
            order::sort_by_key(p.guardians, by_name()),
            name_mark(),
        ),
        ..p
    }
}

/// Whether a tidy policy can be met.
pub open spec fn usable(p: IdentityRecoveryPolicyView) -> bool {
    0 < p.threshold <= p.guardians.len()
}

/// The key of an approval.
pub open spec fn approval_key(a: IdentityRecoveryApprovalView) -> Seq<char> {
    text::joined(seq![a.identity, a.recovered, a.guardian], "|"@)
}

/// Approvals for an identity by its guardians.
pub open spec fn counted(p: IdentityRecoveryPolicyView, did: Seq<char>) -> spec_fn(
    IdentityRecoveryApprovalView,
) -> bool {
    |a: IdentityRecoveryApprovalView| a.identity == did && p.guardians.contains(a.guardian)
}

/// Approvals of a successor.
pub open spec fn approving(next: Seq<char>) -> spec_fn(IdentityRecoveryApprovalView) -> bool {
    |a: IdentityRecoveryApprovalView| a.recovered == next
}

/// The successors that are named, in order of appearance.
pub open spec fn named(votes: Seq<IdentityRecoveryApprovalView>) -> Seq<Seq<char>>
    decreases votes.len(),
{
    if votes.len() == 0 {
        Seq::empty()
    } else {
        table::joined(named(votes.drop_last()), votes.last().recovered)
    }
}

/// The first reason that is given.
pub open spec fn first_reason(votes: Seq<IdentityRecoveryApprovalView>) -> Option<Seq<char>>
    decreases votes.len(),
{
    if votes.len() == 0 {
        None
    } else {
        match first_reason(votes.drop_last()) {
            Some(reason) => Some(reason),
            None => votes.last().reason,
        }
    }
}

/// The rotation to a successor that votes for it amount to: it takes place with
/// the last of them.
pub open spec fn rotation_to(
    did: Seq<char>,
    votes: Seq<IdentityRecoveryApprovalView>,
    next: Seq<char>,
) -> IdentityRotationView {
    let mine = votes.filter(approving(next));
    IdentityRotationView {
        previous: did,
        next,
        reason: first_reason(mine),
        rotated_at: mine.last().approved_at,
    }
}

/// The rotations to those successors that enough guardians approve.
pub open spec fn approved_rotations(
    did: Seq<char>,
    votes: Seq<IdentityRecoveryApprovalView>,
    threshold: usize,
    names: Seq<Seq<char>>,
) -> Seq<IdentityRotationView>
    decreases names.len(),
{
    if names.len() == 0 {
        Seq::empty()
    } else {
        let rest = approved_rotations(did, votes, threshold, names.drop_last());
        if votes.filter(approving(names.last())).len() >= threshold {
            rest.push(rotation_to(did, votes, names.last()))
        } else {
            rest
        }
    }
}

/// The votes that count for an identity, in order of time.
pub open spec fn votes_for(v: SuccessionView, did: Seq<char>) -> Seq<
    IdentityRecoveryApprovalView,
> {
    order::listed(
        v.approvals,
        counted(table::at(v.policies, did), did),
        by_approval(),
    )
}

/// The rotation that guardians have brought about, if any: the earliest.
pub open spec fn recovery(v: SuccessionView, did: Seq<char>) -> Option<IdentityRotationView> {
    if !table::holds(v.policies, did) {
        None
    } else {
        let votes = votes_for(v, did);
        order::first(
            order::sort_by_key(
                approved_rotations(
                    did,
                    votes,
                    table::at(v.policies, did).threshold,
                    named(votes),
                ),
                by_rotation(),
            ),
        )
    }
}

/// What is known after the guardians of an identity were counted.
pub open spec fn with_recovery(v: SuccessionView, did: Seq<char>) -> SuccessionView {
    match recovery(v, did) {
        Some(r) => SuccessionView { rotations: table::put(v.rotations, r.previous, r.next), ..v },
        None => v,
    }
}

/// What is known after a rotation by its holder.
pub open spec fn with_rotation(v: SuccessionView, r: IdentityRotationView) -> SuccessionView {
    SuccessionView { rotations: table::put(v.rotations, r.previous, r.next), ..v }
}

/// What is known after a policy: one that cannot be met is left out, and so is
/// one older than what is known.
pub open spec fn with_policy(
    v: SuccessionView,
    author: Seq<char>,
    policy: IdentityRecoveryPolicyView,
) -> SuccessionView {
    let p = tidy(policy);
    if !usable(p) {
        v
    } else {
        with_recovery(
            SuccessionView {
                policies: match table::find(v.policies, p.identity) {
                    Some(known) if p.updated_at < known.updated_at => v.policies,
                    _ => table::put(v.policies, p.identity, p),
                },
                ..v
            },
            author,
        )
    }
}

/// What is known after an approval: one of the identity itself is left out, and
/// so is one older than what is known.
pub open spec fn with_approval(v: SuccessionView, a: IdentityRecoveryApprovalView) -> SuccessionView {
    if a.identity == a.recovered {
        v
    } else {
        with_recovery(
            SuccessionView {
                approvals: match table::find(v.approvals, approval_key(a)) {
                    Some(known) if a.approved_at < known.approved_at => v.approvals,
                    _ => table::put(v.approvals, approval_key(a), a),
                },
                ..v
            },
            a.identity,
        )
    }
}

/// The identity at the end of a number of rotations.
pub open spec fn successor(rotations: Seq<(Seq<char>, Seq<char>)>, did: Seq<char>, steps: nat) -> Seq<
    char,
>
    decreases steps,
{
    if steps == 0 || !table::holds(rotations, did) {
        did
    } else {
        successor(rotations, table::at(rotations, did), (steps - 1) as nat)
    }
}

/// A rotation happens only when at least as many guardians approve one successor
/// as the policy asks for.
pub proof fn lemma_recovery_meets_threshold(v: SuccessionView, did: Seq<char>)
    ensures
        recovery(v, did) matches Some(r) ==> {
            &&& r.previous == did
            &&& table::holds(v.policies, did)
            &&& votes_for(v, did).filter(approving(r.next)).len() >= table::at(
                v.policies,
                did,
            ).threshold
        },
{
    if table::holds(v.policies, did) {
        let votes = votes_for(v, did);
        let threshold = table::at(v.policies, did).threshold;
        let options = approved_rotations(did, votes, threshold, named(votes));
        order::lemma_sort_by_key(options, by_rotation());
        lemma_approved(did, votes, threshold, named(votes));
        let sorted = order::sort_by_key(options, by_rotation());
        if sorted.len() > 0 {
            broadcast use vstd::seq_lib::group_to_multiset_ensures;

            assert(sorted.contains(sorted[0]));
            assert(sorted.to_multiset().count(sorted[0]) > 0);
            assert(options.contains(sorted[0]));
            let i = options.index_of(sorted[0]);
            assert(options[i] == sorted[0]);
        }
    }
}

proof fn lemma_approved(
    did: Seq<char>,
    votes: Seq<IdentityRecoveryApprovalView>,
    threshold: usize,
    names: Seq<Seq<char>>,
)
    ensures
        forall|i: int|
            0 <= i < approved_rotations(did, votes, threshold, names).len() ==> {
                let r = #[trigger] approved_rotations(did, votes, threshold, names)[i];
                r.previous == did && votes.filter(approving(r.next)).len() >= threshold
            },
    decreases names.len(),
{
    if names.len() > 0 {
        lemma_approved(did, votes, threshold, names.drop_last());
    }
}

impl Succession {
    /// Nothing is known.
    pub fn new() -> (r: Self)
        ensures
            r.deep_view() == (SuccessionView {
                rotations: Seq::empty(),
                policies: Seq::empty(),
                approvals: Seq::empty(),
            }),
    {
        Succession { rotations: Table::new(), policies: Table::new(), approvals: Table::new() }
    }

    /// The identity that directly follows another.
    pub fn next_of(&self, did: &Did) -> (r: Option<&Did>)
        ensures
            r.deep_view() == table::find(self.deep_view().rotations, did.deep_view()),
    {
        self.rotations.get(did)
    }

    /// The identity that acts for another now.
    pub fn active(&self, did: &Did) -> (r: Did)
        ensures
            r.deep_view() == successor(
                self.deep_view().rotations,
                did.deep_view(),
                self.deep_view().rotations.len(),
            ),
    {
        let n = self.rotations.len();
        let mut steps: usize = n;
        let mut current = did.twin();
        while steps > 0
            invariant
                steps <= n,
                n == self.rotations.rows().len(),
                successor(
                    self.rotations.rows(),
                    did.deep_view(),
                    self.rotations.rows().len(),
                ) == successor(self.rotations.rows(), current.deep_view(), steps as nat),
            decreases steps,
        {
            match self.rotations.get(&current) {
                None => {
                    return current;
                },
                Some(next) => {
                    current = next.twin();
                },
            }
            steps = steps - 1;
        }
        current
    }

    fn votes(&self, policy: &IdentityRecoveryPolicy, did: &Did) -> (r: Vec<
        &IdentityRecoveryApproval,
    >)
        ensures
            r.deep_view() == order::listed(
                self.deep_view().approvals,
                counted(policy.deep_view(), did.deep_view()),
                by_approval(),
            ),
    {
        let keep = |a: &IdentityRecoveryApproval| -> (b: bool)
            ensures
                b == counted(policy.deep_view(), did.deep_view())(a.deep_view()),
            { a.identity.same(did) && lists(&policy.guardians, &a.guardian) };
        let key = |a: &IdentityRecoveryApproval| -> (k: Vec<KeyPart>)
            ensures
                k.deep_view() == by_approval()(a.deep_view()),
            { by_approval_of(a) };
        order::listing(
            &self.approvals,
            keep,
            key,
            Ghost(counted(policy.deep_view(), did.deep_view())),
            Ghost(by_approval()),
        )
    }

    /// The rotation that guardians have brought about.
    pub fn recovery_rotation(&self, did: &Did) -> (r: Option<IdentityRotation>)
        ensures
            r.deep_view() == recovery(self.deep_view(), did.deep_view()),
    {
        match self.policies.get(did) {
            None => None,
            Some(policy) => {
                let votes = self.votes(policy, did);
                let options = rotations_of(did, &votes, policy.threshold);
                let mut keys: Vec<Vec<KeyPart>> = Vec::new();
                while keys.len() < options.len()
                    invariant
                        keys@.len() <= options@.len(),
                        forall|j: int|
                            0 <= j < keys@.len() ==> (#[trigger] keys@[j]).deep_view()
                                == by_rotation()(options@[j].deep_view()),
                    decreases options@.len() - keys@.len(),
                {
                    let key = by_rotation_of(&options[keys.len()]);
                    keys.push(key);
                }
                let sorted = order::sort_keyed(options, keys, Ghost(by_rotation()));
                if sorted.len() > 0 {
                    assert(sorted.deep_view()[0] == sorted@[0].deep_view());
                    Some(sorted[0].twin())
                } else {
                    None
                }
            },
        }
    }

    fn apply_recovery(&mut self, did: &Did)
        ensures
            final(self).deep_view() == with_recovery(old(self).deep_view(), did.deep_view()),
    {
        match self.recovery_rotation(did) {
            Some(r) => {
                self.rotations.insert(r.previous, r.next);
            },
            None => {},
        }
    }

    /// Takes note of a rotation by its holder.
    pub fn record_rotation(&mut self, rotation: &IdentityRotation)
        ensures
            final(self).deep_view() == with_rotation(
                old(self).deep_view(),
                rotation.deep_view(),
            ),
    {
        self.rotations.insert(rotation.previous.twin(), rotation.next.twin());
    }

    /// Takes note of a policy that its author published.
    pub fn record_policy(&mut self, author: &Did, policy: &IdentityRecoveryPolicy)
        ensures
            final(self).deep_view() == with_policy(
                old(self).deep_view(),
                author.deep_view(),
                policy.deep_view(),
            ),
    {
        let policy = tidied(policy);
        if policy.threshold == 0 || policy.threshold > policy.guardians.len() {
            return;
        }
        let stale = match self.policies.get(&policy.identity) {
            Some(known) => policy.updated_at < known.updated_at,
            None => false,
        };
        if !stale {
            self.policies.insert(policy.identity.twin(), policy);
        }
        self.apply_recovery(author);
    }

    /// Takes note of an approval by a guardian.
    pub fn record_approval(&mut self, approval: &IdentityRecoveryApproval)
        ensures
            final(self).deep_view() == with_approval(
                old(self).deep_view(),
                approval.deep_view(),
            ),
    {
        if approval.identity.same(&approval.recovered) {
            return;
        }
        let key = approval_key_of(approval);
        let stale = match self.approvals.get(&key) {
            Some(known) => approval.approved_at < known.approved_at,
            None => false,
        };
        if !stale {
            self.approvals.insert(key, approval.twin());
        }
        self.apply_recovery(&approval.identity);
    }
}

/// Whether a list names an identity.
pub fn lists(all: &Vec<Did>, did: &Did) -> (r: bool)
    ensures
        r == all.deep_view().contains(did.deep_view()),
{
    let mut i: usize = 0;
    while i < all.len()
        invariant
            i <= all@.len(),
            forall|j: int| 0 <= j < i ==> #[trigger] all.deep_view()[j] != did.deep_view(),
        decreases all@.len() - i,
    {
        if all[i].same(did) {
            assert(all.deep_view()[i as int] == did.deep_view());
            return true;
        }
        i = i + 1;
    }
    false
}

fn tidied(p: &IdentityRecoveryPolicy) -> (r: IdentityRecoveryPolicy)
    ensures
        r.deep_view() == tidy(p.deep_view()),
{
    let mut refs: Vec<&Did> = Vec::new();
    while refs.len() < p.guardians.len()
        invariant
            refs@.len() <= p.guardians@.len(),
            forall|j: int|
                0 <= j < refs@.len() ==> (#[trigger] refs@[j]).deep_view()
                    == p.guardians.deep_view()[j],
        decreases p.guardians@.len() - refs@.len(),
    {
        refs.push(&p.guardians[refs.len()]);
    }
    assert(refs.deep_view() =~= p.guardians.deep_view());
    let key = |d: &Did| -> (k: Vec<KeyPart>)
        ensures
            k.deep_view() == by_name()(d.deep_view()),
        { by_name_of(d) };
    let mark = |d: &Did| -> (k: String)
        ensures
            k@ == name_mark()(d.deep_view()),
        { d.to_string() };
    let sorted = order::sorted(refs, key, Ghost(by_name()));
    let single = order::unrepeated(sorted, mark, Ghost(name_mark()));
    let mut guardians: Vec<Did> = Vec::new();
    while guardians.len() < single.len()
        invariant
            guardians@.len() <= single@.len(),
            forall|j: int|
                0 <= j < guardians@.len() ==> (#[trigger] guardians@[j]).deep_view()
                    == single.deep_view()[j],
        decreases single@.len() - guardians@.len(),
    {
        guardians.push(single[guardians.len()].twin());
    }
    assert(guardians.deep_view() =~= single.deep_view());
    IdentityRecoveryPolicy {
        identity: p.identity.twin(),
        guardians,
        threshold: p.threshold,
        updated_at: p.updated_at,
    }
}

fn approval_key_of(a: &IdentityRecoveryApproval) -> (r: String)
    ensures
        r@ == approval_key(a.deep_view()),
{
    let parts = vec![
        a.identity.to_string(),
        a.recovered.to_string(),
        a.guardian.to_string(),
    ];
    assert(parts.deep_view() =~= seq![
        a.deep_view().identity,
        a.deep_view().recovered,
        a.deep_view().guardian,
    ]);
    text::piped(&parts)
}

fn names_of(votes: &Vec<&IdentityRecoveryApproval>) -> (r: Group<Did>)
    ensures
        r.members() == named(votes.deep_view()),
{
    let ghost all = votes.deep_view();
    let mut r: Group<Did> = Group::new();
    let mut i: usize = 0;
    while i < votes.len()
        invariant
            i <= votes@.len(),
            all == votes.deep_view(),
            r.members() == named(all.subrange(0, i as int)),
        decreases votes@.len() - i,
    {
        proof {
            let upto = all.subrange(0, i + 1);
            assert(upto.drop_last() =~= all.subrange(0, i as int));
            assert(upto.last() == votes@[i as int].deep_view());
        }
        r.insert(votes[i].recovered.twin());
        i = i + 1;
    }
    assert(all.subrange(0, i as int) =~= all);
    r
}

fn reason_of(votes: &Vec<&IdentityRecoveryApproval>) -> (r: Option<String>)
    ensures
        r.deep_view() == first_reason(votes.deep_view()),
{
    let ghost all = votes.deep_view();
    let mut r: Option<String> = None;
    let mut i: usize = 0;
    while i < votes.len()
        invariant
            i <= votes@.len(),
            all == votes.deep_view(),
            r.deep_view() == first_reason(all.subrange(0, i as int)),
        decreases votes@.len() - i,
    {
        proof {
            let upto = all.subrange(0, i + 1);
            assert(upto.drop_last() =~= all.subrange(0, i as int));
            assert(upto.last() == votes@[i as int].deep_view());
        }
        if r.is_none() {
            r = votes[i].reason.twin();
        }
        i = i + 1;
    }
    assert(all.subrange(0, i as int) =~= all);
    r
}

fn duplicate<'a>(votes: &Vec<&'a IdentityRecoveryApproval>) -> (r: Vec<&'a IdentityRecoveryApproval>)
    ensures
        r.deep_view() == votes.deep_view(),
{
    let mut r: Vec<&'a IdentityRecoveryApproval> = Vec::new();
    while r.len() < votes.len()
        invariant
            r@.len() <= votes@.len(),
            forall|j: int|
                0 <= j < r@.len() ==> (#[trigger] r@[j]).deep_view() == votes.deep_view()[j],
        decreases votes@.len() - r@.len(),
    {
        r.push(votes[r.len()]);
    }
    assert(r.deep_view() =~= votes.deep_view());
    r
}

proof fn lemma_named(votes: Seq<IdentityRecoveryApprovalView>, next: Seq<char>)
    requires
        named(votes).contains(next),
    ensures
        exists|k: int| 0 <= k < votes.len() && (#[trigger] votes[k]).recovered == next,
    decreases votes.len(),
{
    if votes.len() > 0 {
        let front = votes.drop_last();
        if named(front).contains(next) {
            lemma_named(front, next);
            let k = choose|k: int| 0 <= k < front.len() && (#[trigger] front[k]).recovered == next;
            assert(votes[k] == front[k]);
        } else {
            let k = named(votes).index_of(next);
            if k < named(front).len() {
                assert(named(front)[k] == next);
            }
            assert(votes[votes.len() - 1].recovered == next);
        }
    }
}

fn rotations_of(did: &Did, votes: &Vec<&IdentityRecoveryApproval>, threshold: usize) -> (r: Vec<
    IdentityRotation,
>)
    ensures
        r.deep_view() == approved_rotations(
            did.deep_view(),
            votes.deep_view(),
            threshold,
            named(votes.deep_view()),
        ),
{
    let ghost all = votes.deep_view();
    let names = names_of(votes);
    let ghost every = names.members();
    let n = names.len();
    let mut r: Vec<IdentityRotation> = Vec::new();
    let mut i: usize = 0;
    assert(r.deep_view() =~= Seq::<IdentityRotationView>::empty());
    while i < n
        invariant
            i <= n,
            n == names.members().len(),
            every == names.members(),
            all == votes.deep_view(),
            every == named(all),
            r.deep_view() == approved_rotations(
                did.deep_view(),
                all,
                threshold,
                every.subrange(0, i as int),
            ),
        decreases n - i,
    {
        proof {
            let upto = every.subrange(0, i + 1);
            assert(upto.drop_last() =~= every.subrange(0, i as int));
            assert(upto.last() == every[i as int]);
        }
        let next = names.at(i);
        let keep = |a: &IdentityRecoveryApproval| -> (b: bool)
            ensures
                b == approving(next.deep_view())(a.deep_view()),
            { a.recovered.same(next) };
        let mine = order::kept(duplicate(votes), keep, Ghost(approving(next.deep_view())));
        proof {
            assert(every.contains(every[i as int]));
            lemma_named(all, next.deep_view());
            let k = choose|k: int|
                0 <= k < all.len() && (#[trigger] all[k]).recovered == next.deep_view();
            all.lemma_filter_contains(approving(next.deep_view()), k);
        }
        if mine.len() >= threshold {
            let ghost before = r.deep_view();
            let last = mine[mine.len() - 1];
            assert(mine.deep_view().last() == last.deep_view());
            let rotation = IdentityRotation {
                previous: did.twin(),
                next: next.twin(),
                reason: reason_of(&mine),
                rotated_at: last.approved_at,
            };
            assert(rotation.deep_view() == rotation_to(
                did.deep_view(),
                all,
                next.deep_view(),
            ));
            r.push(rotation);
            assert(r.deep_view() =~= before.push(rotation.deep_view()));
        }
        i = i + 1;
    }
    assert(every.subrange(0, i as int) =~= every);
    r
}

proof fn lemma_name_order(s: Seq<Seq<char>>, i: int, j: int)
    requires
        0 <= i <= j < s.len(),
    ensures
        text::text_le(
            order::sort_by_key(s, by_name())[i],
            order::sort_by_key(s, by_name())[j],
        ),
{
    let sorted = order::sort_by_key(s, by_name());
    order::lemma_sort_by_key(s, by_name());
    let a = by_name()(sorted[i]);
    let b = by_name()(sorted[j]);
    assert(order::key_le(a, b));
    order::lemma_key_le_parts(a, b);
    assert(a[0] == KeyPartView::Text(sorted[i]) && b[0] == KeyPartView::Text(sorted[j]));
}

proof fn lemma_once(s: Seq<Seq<char>>)
    requires
        forall|i: int, j: int| 0 <= i <= j < s.len() ==> text::text_le(#[trigger] s[i], #[trigger] s[j]),
    ensures
        ({
            let once = order::without_repeats(s, name_mark());
            &&& once.no_duplicates()
            &&& s.len() > 0 ==> once.len() > 0 && once.last() == s.last()
            &&& forall|x: Seq<char>| #[trigger] once.contains(x) <==> s.contains(x)
        }),
    decreases s.len(),
{
    let once = order::without_repeats(s, name_mark());
    if s.len() > 0 {
        let front = s.drop_last();
        let last = s.last();
        assert forall|i: int, j: int| 0 <= i <= j < front.len() implies text::text_le(
            #[trigger] front[i],
            #[trigger] front[j],
        ) by {
            assert(front[i] == s[i] && front[j] == s[j]);
        }
        lemma_once(front);
        let before = order::without_repeats(front, name_mark());
        if front.len() > 0 && front.last() != last {
            assert(!before.contains(last)) by {
                if before.contains(last) {
                    let i = front.index_of(last);
                    let n = front.len() - 1;
                    assert(text::text_le(s[i], s[n]) && text::text_le(s[n], s[n + 1]));
                    text::lemma_text_le_antisym(s[i], s[n]);
                }
            }
        }
        assert forall|x: Seq<char>| #[trigger] once.contains(x) <==> s.contains(x) by {
            if front.contains(x) {
                assert(s[front.index_of(x)] == x);
                assert(before.contains(x));
                let k = before.index_of(x);
                assert(before[k] == x);
                assert(once[k] == x);
            }
            if s.contains(x) {
                let i = s.index_of(x);
                if i < front.len() {
                    assert(front[i] == x);
                } else {
                    assert(once.last() == x);
                    assert(once[once.len() - 1] == x);
                }
            }
            if once.contains(x) {
                let k = once.index_of(x);
                if k < before.len() {
                    assert(before[k] == x);
                    assert(before.contains(x));
                    assert(front.contains(x));
                    let m = front.index_of(x);
                    assert(front[m] == x);
                    assert(s[m] == x);
                } else {
                    assert(s[s.len() - 1] == x);
                }
            }
        }
        assert forall|i: int, j: int|
            0 <= i < once.len() && 0 <= j < once.len() && i != j implies once[i] != once[j] by {
            if i < before.len() {
                assert(before.contains(before[i]));
            }
            if j < before.len() {
                assert(before.contains(before[j]));
            }
        }
    }
}

/// Names in order and without repetition are the given names, each once.
pub proof fn lemma_ordered_once(names: Seq<Seq<char>>)
    ensures
        ({
            let once = order::without_repeats(
                order::sort_by_key(names, by_name()),
                name_mark(),
            );
            &&& once.no_duplicates()
            &&& forall|x: Seq<char>| #[trigger] once.contains(x) <==> names.contains(x)
        }),
{
    let sorted = order::sort_by_key(names, by_name());
    order::lemma_sort_by_key(names, by_name());
    assert forall|i: int, j: int| 0 <= i <= j < sorted.len() implies text::text_le(
        #[trigger] sorted[i],
        #[trigger] sorted[j],
    ) by {
        lemma_name_order(names, i, j);
    }
    lemma_once(sorted);
    let once = order::without_repeats(sorted, name_mark());
    assert forall|x: Seq<char>| #[trigger] once.contains(x) <==> names.contains(x) by {
        order::lemma_sorted_contains(names, by_name(), x);
    }
}

/// Whether some names are different ones out of a list, at least so many.
pub open spec fn enough(some: Seq<Seq<char>>, among: Seq<Seq<char>>, number: int) -> bool {
    &&& some.no_duplicates()
    &&& forall|i: int| 0 <= i < some.len() ==> among.contains(#[trigger] some[i])
    &&& some.len() >= number
}

/// A policy that asks for at least one guardian, and for no more than the
/// different guardians that it names, is kept with its threshold and its
/// guardians, unless a later one is known, which stays.
pub proof fn lemma_policy_is_kept(
    v: SuccessionView,
    author: Seq<char>,
    policy: IdentityRecoveryPolicyView,
    some: Seq<Seq<char>>,
)
    requires
        table::distinct(v.policies),
        policy.threshold >= 1,
        enough(some, policy.guardians, policy.threshold as int),
    ensures
        table::find(with_policy(v, author, policy).policies, policy.identity) matches Some(kept)
            && match table::find(v.policies, policy.identity) {
            Some(known) if known.updated_at > policy.updated_at => kept == known,
            _ => {
                &&& kept.identity == policy.identity
                &&& kept.threshold == policy.threshold
                &&& kept.updated_at == policy.updated_at
                &&& kept.guardians.no_duplicates()
                &&& forall|d: Seq<char>| #[trigger]
                    kept.guardians.contains(d) <==> policy.guardians.contains(d)
            },
        },
        with_policy(v, author, policy).approvals == v.approvals,
{
    let p = tidy(policy);
    lemma_ordered_once(policy.guardians);
    assert forall|i: int| 0 <= i < some.len() implies p.guardians.contains(#[trigger] some[i]) by {
        assert(policy.guardians.contains(some[i]));
    }
    order::lemma_fits(some, p.guardians);
    table::lemma_put_find(v.policies, p.identity, p, p.identity);
}

/// A policy that asks for nobody, or for more guardians than it names, changes
/// nothing.
pub proof fn lemma_policy_beyond_reach_is_dropped(
    v: SuccessionView,
    author: Seq<char>,
    policy: IdentityRecoveryPolicyView,
)
    requires
        policy.threshold == 0 || forall|some: Seq<Seq<char>>| !#[trigger]
            enough(some, policy.guardians, policy.threshold as int),
    ensures
        with_policy(v, author, policy) == v,
{
    let p = tidy(policy);
    lemma_ordered_once(policy.guardians);
    if policy.threshold > 0 {
        assert forall|i: int| 0 <= i < p.guardians.len() implies policy.guardians.contains(
            #[trigger] p.guardians[i],
        ) by {
            assert(p.guardians.contains(p.guardians[i]));
        }
        assert(!enough(p.guardians, policy.guardians, policy.threshold as int));
    }
}

/// Whether a guardian's word for a successor of an identity is known.
pub open spec fn word_known(
    v: SuccessionView,
    did: Seq<char>,
    next: Seq<char>,
    guardian: Seq<char>,
) -> bool {
    exists|i: int|
        0 <= i < v.approvals.len() && (#[trigger] v.approvals[i]).1.identity == did
            && v.approvals[i].1.recovered == next && v.approvals[i].1.guardian == guardian
}

/// Whether as many different guardians as the policy of an identity asks for
/// gave their word for one successor.
pub open spec fn backed(
    v: SuccessionView,
    did: Seq<char>,
    next: Seq<char>,
    some: Seq<Seq<char>>,
) -> bool {
    table::find(v.policies, did) matches Some(policy) && {
        &&& enough(some, policy.guardians, policy.threshold as int)
        &&& some.len() > 0
        &&& forall|i: int| 0 <= i < some.len() ==> word_known(v, did, next, #[trigger] some[i])
    }
}

/// Whether approvals stand under their own keys, none twice.
pub open spec fn keyed(v: SuccessionView) -> bool {
    &&& table::distinct(v.approvals)
    &&& forall|i: int|
        0 <= i < v.approvals.len() ==> (#[trigger] v.approvals[i]).0 == approval_key(
            v.approvals[i].1,
        )
}

proof fn lemma_vote_is_listed(v: SuccessionView, did: Seq<char>, next: Seq<char>, guardian: Seq<char>)
    requires
        table::find(v.policies, did) matches Some(policy) && policy.guardians.contains(guardian),
        word_known(v, did, next, guardian),
    ensures
        exists|k: int|
            0 <= k < votes_for(v, did).filter(approving(next)).len() && (#[trigger] votes_for(
                v,
                did,
            ).filter(approving(next))[k]).guardian == guardian,
{
    let policy = table::at(v.policies, did);
    let i = choose|i: int|
        0 <= i < v.approvals.len() && (#[trigger] v.approvals[i]).1.identity == did
            && v.approvals[i].1.recovered == next && v.approvals[i].1.guardian == guardian;
    let a = v.approvals[i].1;
    assert(table::values(v.approvals)[i] == a);
    assert(table::values(v.approvals).contains(a));
    order::lemma_listed(v.approvals, counted(policy, did), by_approval());
    assert(votes_for(v, did).contains(a));
    order::lemma_kept_contains(votes_for(v, did), approving(next), a);
    let mine = votes_for(v, did).filter(approving(next));
    assert(mine[mine.index_of(a)].guardian == guardian);
}

proof fn lemma_named_all(votes: Seq<IdentityRecoveryApprovalView>, k: int)
    requires
        0 <= k < votes.len(),
    ensures
        named(votes).contains(votes[k].recovered),
    decreases votes.len(),
{
    let front = votes.drop_last();
    if k < front.len() {
        lemma_named_all(front, k);
        assert(front[k] == votes[k]);
    }
    table::lemma_joined_contains(named(front), votes.last().recovered, votes[k].recovered);
}

proof fn lemma_approved_all(
    did: Seq<char>,
    votes: Seq<IdentityRecoveryApprovalView>,
    threshold: usize,
    names: Seq<Seq<char>>,
    next: Seq<char>,
)
    ensures
        approved_rotations(did, votes, threshold, names).contains(rotation_to(did, votes, next))
            <== names.contains(next) && votes.filter(approving(next)).len() >= threshold,
        forall|r: IdentityRotationView| #[trigger]
            approved_rotations(did, votes, threshold, names).contains(r) ==> names.contains(r.next)
                && r == rotation_to(did, votes, r.next) && votes.filter(approving(r.next)).len()
                >= threshold,
    decreases names.len(),
{
    if names.len() > 0 {
        let front = names.drop_last();
        let last = names.last();
        lemma_approved_all(did, votes, threshold, front, next);
        let rest = approved_rotations(did, votes, threshold, front);
        let all = approved_rotations(did, votes, threshold, names);
        if names.contains(next) && votes.filter(approving(next)).len() >= threshold {
            let i = names.index_of(next);
            if i < front.len() {
                assert(front[i] == next);
                let k = rest.index_of(rotation_to(did, votes, next));
                assert(all[k] == rotation_to(did, votes, next));
            } else {
                assert(all[rest.len() as int] == rotation_to(did, votes, next));
            }
        }
        assert forall|r: IdentityRotationView| #[trigger] all.contains(r) implies names.contains(
            r.next,
        ) && r == rotation_to(did, votes, r.next) && votes.filter(approving(r.next)).len()
            >= threshold by {
            let k = all.index_of(r);
            if k < rest.len() {
                assert(rest[k] == r);
                assert(rest.contains(r));
                assert(names[front.index_of(r.next)] == r.next);
            } else {
                assert(names[names.len() - 1] == r.next);
            }
        }
    }
}

proof fn lemma_enough_votes(v: SuccessionView, did: Seq<char>, next: Seq<char>, some: Seq<Seq<char>>)
    requires
        backed(v, did, next, some),
    ensures
        votes_for(v, did).filter(approving(next)).len() >= some.len(),
        named(votes_for(v, did)).contains(next),
{
    let votes = votes_for(v, did);
    let mine = votes.filter(approving(next));
    let guardians = Seq::new(mine.len(), |k: int| mine[k].guardian);
    assert forall|i: int| 0 <= i < some.len() implies guardians.contains(#[trigger] some[i]) by {
        assert(word_known(v, did, next, some[i]));
        lemma_vote_is_listed(v, did, next, some[i]);
        let k = choose|k: int| 0 <= k < mine.len() && (#[trigger] mine[k]).guardian == some[i];
        assert(guardians[k] == some[i]);
    }
    order::lemma_fits(some, guardians);
    assert(mine.contains(mine[0]));
    order::lemma_kept_contains(votes, approving(next), mine[0]);
    let k = votes.index_of(mine[0]);
    lemma_named_all(votes, k);
}

/// Whenever as many different guardians as the policy asks for gave their word
/// for one successor, the identity is recovered.
pub proof fn lemma_backed_recovery_happens(
    v: SuccessionView,
    did: Seq<char>,
    next: Seq<char>,
    some: Seq<Seq<char>>,
)
    requires
        backed(v, did, next, some),
    ensures
        recovery(v, did) is Some,
        table::holds(with_recovery(v, did).rotations, did),
{
    let votes = votes_for(v, did);
    let threshold = table::at(v.policies, did).threshold;
    lemma_enough_votes(v, did, next, some);
    lemma_approved_all(did, votes, threshold, named(votes), next);
    let options = approved_rotations(did, votes, threshold, named(votes));
    order::lemma_sort_by_key(options, by_rotation());
    assert(options.len() > 0);
    lemma_recovery_meets_threshold(v, did);
    let r = recovery(v, did)->0;
    table::lemma_put_holds(v.rotations, r.previous, r.next, did);
}

proof fn lemma_votes_apart(v: SuccessionView, did: Seq<char>, next: Seq<char>)
    requires
        keyed(v),
        table::holds(v.policies, did),
    ensures
        ({
            let mine = votes_for(v, did).filter(approving(next));
            forall|i: int, j: int|
                0 <= i < mine.len() && 0 <= j < mine.len() && i != j ==> (
                #[trigger] mine[i]).guardian != (#[trigger] mine[j]).guardian
        }),
{
    let policy = table::at(v.policies, did);
    let all = table::values(v.approvals);
    let votes = votes_for(v, did);
    let mine = votes.filter(approving(next));
    assert(all.no_duplicates()) by {
        assert forall|i: int, j: int| 0 <= i < all.len() && 0 <= j < all.len() && i != j implies all[i]
            != all[j] by {
            assert(all[i] == v.approvals[i].1 && all[j] == v.approvals[j].1);
            assert(v.approvals[i].0 == approval_key(all[i]));
            assert(v.approvals[j].0 == approval_key(all[j]));
            if i < j {
                assert(v.approvals[i].0 != v.approvals[j].0);
            } else {
                assert(v.approvals[j].0 != v.approvals[i].0);
            }
        }
    }
    order::lemma_kept_distinct(all, counted(policy, did));
    order::lemma_sorted_distinct(all.filter(counted(policy, did)), by_approval());
    order::lemma_kept_distinct(votes, approving(next));
    assert forall|i: int, j: int|
        0 <= i < mine.len() && 0 <= j < mine.len() && i != j implies (#[trigger] mine[i]).guardian
        != (#[trigger] mine[j]).guardian by {
        lemma_vote_row(v, did, next, i);
        lemma_vote_row(v, did, next, j);
        if mine[i].guardian == mine[j].guardian {
            let p = choose|p: int| 0 <= p < v.approvals.len() && (#[trigger] v.approvals[p]).1 == mine[i];
            let q = choose|q: int| 0 <= q < v.approvals.len() && (#[trigger] v.approvals[q]).1 == mine[j];
            assert(approval_key(mine[i]) == approval_key(mine[j]));
            assert(v.approvals[p].0 == v.approvals[q].0);
            if p < q {
                assert(v.approvals[p].0 != v.approvals[q].0);
            } else if q < p {
                assert(v.approvals[q].0 != v.approvals[p].0);
            }
            assert(mine[i] == mine[j]);
        }
    }
}

proof fn lemma_vote_row(v: SuccessionView, did: Seq<char>, next: Seq<char>, i: int)
    requires
        table::holds(v.policies, did),
        0 <= i < votes_for(v, did).filter(approving(next)).len(),
    ensures
        ({
            let vote = votes_for(v, did).filter(approving(next))[i];
            &&& vote.identity == did
            &&& vote.recovered == next
            &&& table::at(v.policies, did).guardians.contains(vote.guardian)
            &&& exists|p: int| 0 <= p < v.approvals.len() && (#[trigger] v.approvals[p]).1 == vote
            &&& word_known(v, did, next, vote.guardian)
        }),
{
    let policy = table::at(v.policies, did);
    let votes = votes_for(v, did);
    let mine = votes.filter(approving(next));
    let vote = mine[i];
    assert(mine.contains(vote));
    order::lemma_kept_contains(votes, approving(next), vote);
    order::lemma_listed(v.approvals, counted(policy, did), by_approval());
    assert(votes.contains(vote));
    let all = table::values(v.approvals);
    let p = all.index_of(vote);
    assert(v.approvals[p].1 == vote);
}

/// An identity is recovered only for a successor for whom as many different
/// guardians as its policy asks for gave their word.
pub proof fn lemma_recovery_is_backed(v: SuccessionView, did: Seq<char>)
    requires
        keyed(v),
        table::find(v.policies, did) matches Some(policy) ==> policy.threshold >= 1,
    ensures
        recovery(v, did) matches Some(r) ==> r.previous == did && exists|some: Seq<Seq<char>>|
            #[trigger] backed(v, did, r.next, some),
{
    if let Some(r) = recovery(v, did) {
        lemma_recovery_meets_threshold(v, did);
        let mine = votes_for(v, did).filter(approving(r.next));
        lemma_votes_apart(v, did, r.next);
        let some = Seq::new(mine.len(), |k: int| mine[k].guardian);
        assert forall|i: int| 0 <= i < some.len() implies word_known(
            v,
            did,
            r.next,
            #[trigger] some[i],
        ) && table::at(v.policies, did).guardians.contains(some[i]) by {
            lemma_vote_row(v, did, r.next, i);
        }
        assert forall|i: int, j: int|
            0 <= i < some.len() && 0 <= j < some.len() && i != j implies some[i] != some[j] by {
            assert(mine[i].guardian != mine[j].guardian);
        }
        assert(backed(v, did, r.next, some));
    }
}

proof fn lemma_votes_in_time(v: SuccessionView, did: Seq<char>, next: Seq<char>, i: int, j: int)
    requires
        0 <= i <= j < votes_for(v, did).filter(approving(next)).len(),
    ensures
        votes_for(v, did).filter(approving(next))[i].approved_at <= votes_for(v, did).filter(
            approving(next),
        )[j].approved_at,
{
    let policy = table::at(v.policies, did);
    let votes = votes_for(v, did);
    order::lemma_listed(v.approvals, counted(policy, did), by_approval());
    assert forall|a: int, b: int| 0 <= a <= b < votes.len() implies (#[trigger] votes[a]).approved_at
        <= (#[trigger] votes[b]).approved_at by {
        let x = by_approval()(votes[a]);
        let y = by_approval()(votes[b]);
        assert(order::key_le(x, y));
        order::lemma_key_le_parts(x, y);
        assert(x[0] == KeyPartView::Num(votes[a].approved_at as int));
        assert(y[0] == KeyPartView::Num(votes[b].approved_at as int));
    }
    lemma_filter_in_time(votes, approving(next), i, j);
}

proof fn lemma_filter_in_time(
    votes: Seq<IdentityRecoveryApprovalView>,
    keep: spec_fn(IdentityRecoveryApprovalView) -> bool,
    i: int,
    j: int,
)
    requires
        forall|a: int, b: int|
            0 <= a <= b < votes.len() ==> (#[trigger] votes[a]).approved_at <= (
            #[trigger] votes[b]).approved_at,
        0 <= i <= j < votes.filter(keep).len(),
    ensures
        votes.filter(keep)[i].approved_at <= votes.filter(keep)[j].approved_at,
    decreases votes.len(),
{
    reveal(Seq::filter);
    if votes.len() > 0 {
        let front = votes.drop_last();
        let kept = front.filter(keep);
        assert forall|a: int, b: int|
            0 <= a <= b < front.len() implies (#[trigger] front[a]).approved_at <= (
        #[trigger] front[b]).approved_at by {
            assert(front[a] == votes[a] && front[b] == votes[b]);
        }
        if j < kept.len() {
            lemma_filter_in_time(front, keep, i, j);
        } else if i < kept.len() {
            assert(kept.contains(kept[i]));
            order::lemma_kept_contains(front, keep, kept[i]);
            let a = front.index_of(kept[i]);
            assert(votes[a].approved_at <= votes[votes.len() - 1].approved_at);
        }
    }
}

/// A recovery takes place with the last word for its successor, and no successor
/// that the guardians back was complete before.
pub proof fn lemma_recovery_is_the_earliest(
    v: SuccessionView,
    did: Seq<char>,
    other: Seq<char>,
    some: Seq<Seq<char>>,
    i: int,
)
    requires
        recovery(v, did) is Some,
        backed(v, did, other, some),
        table::find(v.policies, did) matches Some(policy) && policy.threshold >= 1,
        0 <= i < v.approvals.len(),
    ensures
        ({
            let r = recovery(v, did)->0;
            let policy = table::at(v.policies, did);
            let a = v.approvals[i].1;
            &&& a.identity == did && a.recovered == r.next && policy.guardians.contains(a.guardian)
                ==> a.approved_at <= r.rotated_at
            &&& exists|k: int|
                0 <= k < v.approvals.len() && (#[trigger] v.approvals[k]).1.identity == did
                    && v.approvals[k].1.recovered == r.next && policy.guardians.contains(
                    v.approvals[k].1.guardian,
                ) && v.approvals[k].1.approved_at == r.rotated_at
            &&& exists|k: int|
                0 <= k < v.approvals.len() && (#[trigger] v.approvals[k]).1.identity == did
                    && v.approvals[k].1.recovered == other && policy.guardians.contains(
                    v.approvals[k].1.guardian,
                ) && v.approvals[k].1.approved_at >= r.rotated_at
        }),
{
    let votes = votes_for(v, did);
    let policy = table::at(v.policies, did);
    let options = approved_rotations(did, votes, policy.threshold, named(votes));
    let sorted = order::sort_by_key(options, by_rotation());
    let r = recovery(v, did)->0;
    order::lemma_sort_by_key(options, by_rotation());
    assert(sorted.contains(sorted[0]));
    order::lemma_sorted_contains(options, by_rotation(), r);
    lemma_approved_all(did, votes, policy.threshold, named(votes), other);
    let mine = votes.filter(approving(r.next));
    let last = mine.len() - 1;
    lemma_vote_row(v, did, r.next, last);
    let a = v.approvals[i].1;
    if a.identity == did && a.recovered == r.next && policy.guardians.contains(a.guardian) {
        order::lemma_listed(v.approvals, counted(policy, did), by_approval());
        assert(table::values(v.approvals)[i] == a);
        assert(table::values(v.approvals).contains(a));
        assert(votes.contains(a));
        order::lemma_kept_contains(votes, approving(r.next), a);
        let k = mine.index_of(a);
        lemma_votes_in_time(v, did, r.next, k, last);
    }
    let p = choose|p: int| 0 <= p < v.approvals.len() && (#[trigger] v.approvals[p]).1 == mine[last];
    assert(v.approvals[p].1.approved_at == r.rotated_at);
    lemma_enough_votes(v, did, other, some);
    let rival = rotation_to(did, votes, other);
    order::lemma_sorted_contains(options, by_rotation(), rival);
    let q = sorted.index_of(rival);
    let x = by_rotation()(sorted[0]);
    let y = by_rotation()(sorted[q]);
    assert(order::key_le(x, y));
    order::lemma_key_le_parts(x, y);
    assert(x[0] == KeyPartView::Num(r.rotated_at as int));
    assert(y[0] == KeyPartView::Num(rival.rotated_at as int));
    let theirs = votes.filter(approving(other));
    let end = theirs.len() - 1;
    lemma_vote_row(v, did, other, end);
    let t = choose|t: int| 0 <= t < v.approvals.len() && (#[trigger] v.approvals[t]).1 == theirs[end];
    assert(v.approvals[t].1.approved_at >= r.rotated_at);
}

/// After an approval, an identity whose guardians back a successor is handed
/// over; and no other identity is.
pub proof fn lemma_approval_recovers(
    v: SuccessionView,
    a: IdentityRecoveryApprovalView,
    next: Seq<char>,
    some: Seq<Seq<char>>,
    other: Seq<char>,
)
    requires
        table::distinct(v.rotations),
    ensures
        ({
            let w = with_approval(v, a);
            &&& a.identity == a.recovered ==> w == v
            &&& a.identity != a.recovered && backed(w, a.identity, next, some) ==> table::holds(
                w.rotations,
                a.identity,
            )
            &&& other != a.identity ==> table::find(w.rotations, other) == table::find(
                v.rotations,
                other,
            )
            &&& w.policies == v.policies
        }),
{
    if a.identity != a.recovered {
        let noted = SuccessionView {
            approvals: match table::find(v.approvals, approval_key(a)) {
                Some(known) if a.approved_at < known.approved_at => v.approvals,
                _ => table::put(v.approvals, approval_key(a), a),
            },
            ..v
        };
        let w = with_approval(v, a);
        assert(w.approvals == noted.approvals && w.policies == noted.policies);
        if backed(w, a.identity, next, some) {
            assert forall|i: int| 0 <= i < some.len() implies word_known(
                noted,
                a.identity,
                next,
                #[trigger] some[i],
            ) by {
                assert(word_known(w, a.identity, next, some[i]));
            }
            assert(backed(noted, a.identity, next, some));
            lemma_backed_recovery_happens(noted, a.identity, next, some);
        }
        lemma_recovery_meets_threshold(noted, a.identity);
        if let Some(r) = recovery(noted, a.identity) {
            table::lemma_put_find(v.rotations, r.previous, r.next, other);
        }
    }
}

/// After a policy of an identity, an identity whose guardians back a successor
/// is handed over; and no other identity is.
pub proof fn lemma_policy_recovers(
    v: SuccessionView,
    author: Seq<char>,
    policy: IdentityRecoveryPolicyView,
    next: Seq<char>,
    some: Seq<Seq<char>>,
    guardians: Seq<Seq<char>>,
    other: Seq<char>,
)
    requires
        table::distinct(v.rotations),
        policy.threshold >= 1,
        enough(guardians, policy.guardians, policy.threshold as int),
    ensures
        ({
            let w = with_policy(v, author, policy);
            &&& backed(w, author, next, some) ==> table::holds(w.rotations, author)
            &&& other != author ==> table::find(w.rotations, other) == table::find(
                v.rotations,
                other,
            )
        }),
{
    let p = tidy(policy);
    lemma_ordered_once(policy.guardians);
    assert forall|i: int| 0 <= i < guardians.len() implies p.guardians.contains(
        #[trigger] guardians[i],
    ) by {
        assert(policy.guardians.contains(guardians[i]));
    }
    order::lemma_fits(guardians, p.guardians);
    let noted = SuccessionView {
        policies: match table::find(v.policies, p.identity) {
            Some(known) if p.updated_at < known.updated_at => v.policies,
            _ => table::put(v.policies, p.identity, p),
        },
        ..v
    };
    let w = with_policy(v, author, policy);
    assert(w.approvals == noted.approvals && w.policies == noted.policies);
    if backed(w, author, next, some) {
        assert forall|i: int| 0 <= i < some.len() implies word_known(
            noted,
            author,
            next,
            #[trigger] some[i],
        ) by {
            assert(word_known(w, author, next, some[i]));
        }
        assert(backed(noted, author, next, some));
        lemma_backed_recovery_happens(noted, author, next, some);
    }
    lemma_recovery_meets_threshold(noted, author);
    if let Some(r) = recovery(noted, author) {
        table::lemma_put_find(v.rotations, r.previous, r.next, other);
    }
}

/// A word that a guardian gives about another identity is known afterwards, with
/// the time of the later of what is known and what is given; words of others
/// stay known.
pub proof fn lemma_approval_is_known(
    v: SuccessionView,
    a: IdentityRecoveryApprovalView,
    i: int,
)
    requires
        keyed(v),
        a.identity != a.recovered,
    ensures
        ({
            let w = with_approval(v, a);
            let kept = table::find(w.approvals, approval_key(a));
            &&& keyed(w)
            &&& kept is Some
            &&& match table::find(v.approvals, approval_key(a)) {
                Some(known) if known.approved_at > a.approved_at => kept == Some(known),
                _ => kept == Some(a),
            }
            &&& 0 <= i < v.approvals.len() && v.approvals[i].0 != approval_key(a)
                ==> w.approvals.contains(v.approvals[i])
        }),
{
    let key = approval_key(a);
    let w = with_approval(v, a);
    table::lemma_put_find(v.approvals, key, a, key);
    let put = table::put(v.approvals, key, a);
    assert forall|k: int| 0 <= k < put.len() implies (#[trigger] put[k]).0 == approval_key(
        put[k].1,
    ) by {
        if k < v.approvals.len() {
            assert(v.approvals[k].0 == approval_key(v.approvals[k].1));
        }
    }
    if 0 <= i < v.approvals.len() && v.approvals[i].0 != key {
        if table::holds(v.approvals, key) {
            let p = table::place(v.approvals, key);
            assert(v.approvals[p].0 == key);
            assert(p != i);
        }
        assert(put[i] == v.approvals[i]);
        assert(w.approvals[i] == v.approvals[i]);
    }
}

/// A holder's rotation names the successor of that identity, and of no other.
pub proof fn lemma_rotation_names_successor(
    v: SuccessionView,
    r: IdentityRotationView,
    other: Seq<char>,
)
    requires
        table::distinct(v.rotations),
    ensures
        table::find(with_rotation(v, r).rotations, r.previous) == Some(r.next),
        other != r.previous ==> table::find(with_rotation(v, r).rotations, other) == table::find(
            v.rotations,
            other,
        ),
        with_rotation(v, r).policies == v.policies,
        with_rotation(v, r).approvals == v.approvals,
{
    table::lemma_put_find(v.rotations, r.previous, r.next, r.previous);
    table::lemma_put_find(v.rotations, r.previous, r.next, other);
}

/// Whether identities follow each other by rotations.
pub open spec fn handed_down(rotations: Seq<(Seq<char>, Seq<char>)>, line: Seq<Seq<char>>) -> bool {
    &&& line.len() > 0
    &&& line.no_duplicates()
    &&& forall|i: int|
        0 <= i < line.len() - 1 ==> table::find(rotations, #[trigger] line[i]) == Some(line[i + 1])
}

/// The identity that acts for another is the last of those that follow it.
pub proof fn lemma_last_successor_acts(
    rotations: Seq<(Seq<char>, Seq<char>)>,
    line: Seq<Seq<char>>,
)
    requires
        table::distinct(rotations),
        handed_down(rotations, line),
        table::find(rotations, line.last()) is None,
    ensures
        successor(rotations, line[0], rotations.len()) == line.last(),
{
    let front = line.drop_last();
    let keys = Seq::new(rotations.len(), |i: int| rotations[i].0);
    assert forall|i: int| 0 <= i < front.len() implies keys.contains(#[trigger] front[i]) by {
        assert(front[i] == line[i]);
        assert(table::find(rotations, line[i]) is Some);
        let p = table::place(rotations, line[i]);
        assert(keys[p] == line[i]);
    }
    assert(front.no_duplicates());
    order::lemma_fits(front, keys);
    lemma_walk(rotations, line, 0, rotations.len());
}

proof fn lemma_walk(
    rotations: Seq<(Seq<char>, Seq<char>)>,
    line: Seq<Seq<char>>,
    i: int,
    steps: nat,
)
    requires
        handed_down(rotations, line),
        table::find(rotations, line.last()) is None,
        0 <= i < line.len(),
        steps >= line.len() - 1 - i,
    ensures
        successor(rotations, line[i], steps) == line.last(),
    decreases steps,
{
    if i < line.len() - 1 {
        assert(table::find(rotations, line[i]) == Some(line[i + 1]));
        lemma_walk(rotations, line, i + 1, (steps - 1) as nat);
    }
}

} // verus!
