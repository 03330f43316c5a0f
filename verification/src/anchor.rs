//! What anchors are about: the collective that a locator names, and whether an
//! anchor belongs to a decision or a settlement.
use crate::facts::{
    CollectiveDecision, CollectiveDecisionView, SettlementRecord, SettlementRecordView,
};
use crate::order;
use crate::recovery::enough;
use crate::settlement::{AuthorityAnchor, AuthorityAnchorView};
use crate::table::{self, Group};
use crate::text;
use crate::types::Did;
use vstd::prelude::*;
use vstd::string::*;

verus! {

/// Where a text first occurs in another.
pub open spec fn first_at(hay: Seq<char>, needle: Seq<char>) -> int {
    choose|at: int|
        text::occurs_at(hay, needle, at) && forall|j: int|
            0 <= j < at ==> !text::occurs_at(hay, needle, j)
}

/// Whether a character ends the name of a collective in a locator.
pub open spec fn ends_name(c: char) -> bool {
    c == '/' || c == '#' || c == '?' || c == ' '
}

/// The part of a text before the first character that ends a name.
pub open spec fn up_to_end(s: Seq<char>) -> Seq<char>
    decreases s.len(),
{
    if s.len() == 0 || ends_name(s[0]) {
        Seq::empty()
    } else {
        seq![s[0]] + up_to_end(s.drop_first())
    }
}

/// The collective that a locator names, if any: what follows the first
/// `collective:`.
pub open spec fn collective_in(locator: Option<Seq<char>>) -> Option<Seq<char>> {
    match locator {
        None => None,
        Some(s) => if !text::occurs_in(s, "collective:"@) {
            None
        } else {
            let name = up_to_end(
                s.subrange(
                    first_at(s, "collective:"@) + "collective:"@.len(),
                    s.len() as int,
                ),
            );
            if name.len() == 0 {
                None
            } else {
                Some(name)
            }
        },
    }
}

/// The collective that an anchor's locator names.
pub fn anchor_collective_id(anchor: &AuthorityAnchor) -> (r: Option<String>)
    ensures
        r.deep_view() == collective_in(anchor.deep_view().locator),
{
    match &anchor.locator {
        None => None,
        Some(locator) => {
            let chars = text::chars_of(locator.as_str());
            let mark = text::chars_of("collective:");
            match text::find_text(chars.as_slice(), mark.as_slice()) {
                None => None,
                Some(at) => {
                    let ghost s = locator@;
                    let size = chars.len();
                    assert(at + mark@.len() <= size);
                    let start: usize = at + mark.len();
                    proof {
                        let f = first_at(s, "collective:"@);
                        assert(text::occurs_at(s, "collective:"@, at as int));
                        assert(f == at) by {
                            assert(text::occurs_at(s, "collective:"@, f));
                            if f < at {
                                assert(!text::occurs_at(s, "collective:"@, f));
                            }
                            if at < f {
                                assert(!text::occurs_at(s, "collective:"@, at as int));
                            }
                        }
                    }
                    let ghost tail = s.subrange(start as int, s.len() as int);
                    let mut name = String::new();
                    let mut i: usize = start;
                    assert(tail.subrange(0, tail.len() as int) =~= tail);
                    while i < chars.len() && !(chars[i] == '/' || chars[i] == '#' || chars[i]
                        == '?' || chars[i] == ' ')
                        invariant
                            start <= i <= chars@.len(),
                            chars@ == s,
                            tail == s.subrange(start as int, s.len() as int),
                            up_to_end(tail) == name@ + up_to_end(
                                tail.subrange(i - start, tail.len() as int),
                            ),
                        decreases chars@.len() - i,
                    {
                        proof {
                            let rest = tail.subrange(i - start, tail.len() as int);
                            assert(rest[0] == chars@[i as int]);
                            assert(rest.drop_first() =~= tail.subrange(
                                i + 1 - start,
                                tail.len() as int,
                            ));
                            assert(name@ + (seq![rest[0]] + up_to_end(rest.drop_first()))
                                =~= name@.push(rest[0]) + up_to_end(rest.drop_first()));
                        }
                        name.push(chars[i]);
                        i = i + 1;
                    }
                    proof {
                        let rest = tail.subrange(i - start, tail.len() as int);
                        if i < chars@.len() {
                            assert(rest[0] == chars@[i as int]);
                        }
                        assert(up_to_end(rest) =~= Seq::<char>::empty());
                        assert(up_to_end(tail) =~= name@);
                    }
                    if name.as_str().unicode_len() == 0 {
                        None
                    } else {
                        Some(name)
                    }
                },
            }
        },
    }
}

/// Whether a locator, where there is one, names what a decision is about.
pub open spec fn locates(locator: Option<Seq<char>>, v: CollectiveDecisionView) -> bool {
    match locator {
        None => true,
        Some(s) => {
            ||| text::occurs_in(s, "proposal:"@ + v.proposal_id)
            ||| v.task_id matches Some(id) && text::occurs_in(s, "task:"@ + id)
            ||| v.claim_id matches Some(id) && text::occurs_in(s, "claim:"@ + id)
        },
    }
}

fn mentions(locator: &str, label: &str, id: &str) -> (r: bool)
    ensures
        r == text::occurs_in(locator@, label@ + id@),
{
    let needle = text::joined_pair(label, id);
    text::contains_text(locator, needle.as_str())
}

/// Whether an anchor's locator, where there is one, names what a decision is
/// about.
pub fn decision_anchor_subject_matches(
    anchor: &AuthorityAnchor,
    decision: &CollectiveDecision,
) -> (r: bool)
    ensures
        r == locates(anchor.deep_view().locator, decision.deep_view()),
{
    match &anchor.locator {
        None => true,
        Some(locator) => {
            if mentions(locator.as_str(), "proposal:", decision.proposal_id.as_str()) {
                return true;
            }
            if let Some(id) = &decision.task_id {
                if mentions(locator.as_str(), "task:", id.as_str()) {
                    return true;
                }
            }
            if let Some(id) = &decision.claim_id {
                if mentions(locator.as_str(), "claim:", id.as_str()) {
                    return true;
                }
            }
            false
        },
    }
}

/// Whether the subject of a checkpoint is a settlement.
pub open spec fn is_about(subject: Seq<char>, v: SettlementRecordView) -> bool {
    ||| subject == "settlement:"@ + v.id
    ||| v.task_id matches Some(id) && subject == "task:"@ + id + ":settlement:"@ + v.id
    ||| v.claim_id matches Some(id) && subject == "claim:"@ + id + ":settlement:"@ + v.id
}

fn about(subject: &str, label: &str, id: &str, settlement: &str) -> (r: bool)
    ensures
        r == (subject@ == label@ + id@ + ":settlement:"@ + settlement@),
{
    let s = text::joined_pair(label, id);
    let s = text::joined_pair(s.as_str(), ":settlement:");
    let s = text::joined_pair(s.as_str(), settlement);
    text::same_text(subject, s.as_str())
}

/// Whether the subject of a checkpoint is a settlement.
pub fn checkpoint_subject_matches_settlement(subject: &str, settlement: &SettlementRecord) -> (r:
    bool)
    ensures
        r == is_about(subject@, settlement.deep_view()),
{
    let plain = text::joined_pair("settlement:", settlement.id.as_str());
    if text::same_text(subject, plain.as_str()) {
        return true;
    }
    if let Some(id) = &settlement.task_id {
        if about(subject, "task:", id.as_str(), settlement.id.as_str()) {
            return true;
        }
    }
    if let Some(id) = &settlement.claim_id {
        if about(subject, "claim:", id.as_str(), settlement.id.as_str()) {
            return true;
        }
    }
    false
}

/// Whether enough different attestors stand behind an anchor, all of them
/// members.
pub open spec fn quorum(anchor: AuthorityAnchorView, members: Seq<Seq<char>>) -> bool {
    let attestors = table::joined_all(Seq::empty(), anchor.attestors);
    &&& attestors.len() >= (match anchor.threshold {
        Some(n) => n as nat,
        None => 0,
    })
    &&& forall|i: int| 0 <= i < attestors.len() ==> members.contains(#[trigger] attestors[i])
}

/// Tests for a quorum of members.
pub fn meets_quorum(anchor: &AuthorityAnchor, members: &Group<Did>) -> (r: bool)
    ensures
        r == quorum(anchor.deep_view(), members.members()),
{
    let mut attestors: Group<Did> = Group::new();
    attestors.insert_all(&anchor.attestors);
    let threshold: usize = match anchor.threshold {
        Some(n) => n,
        None => 0,
    };
    let n = attestors.len();
    if n < threshold {
        return false;
    }
    let mut i: usize = 0;
    while i < n
        invariant
            i <= n,
            n == attestors.members().len(),
            attestors.members() == table::joined_all(
                Seq::empty(),
                anchor.attestors.deep_view(),
            ),
            forall|j: int|
                0 <= j < i ==> members.members().contains(#[trigger] attestors.members()[j]),
        decreases n - i,
    {
        if !members.contains(attestors.at(i)) {
            assert(!members.members().contains(attestors.members()[i as int]));
            return false;
        }
        i = i + 1;
    }
    true
}

/// How many attestors an anchor asks for.
pub open spec fn asked(anchor: AuthorityAnchorView) -> int {
    if anchor.threshold is Some {
        anchor.threshold->0 as int
    } else {
        0
    }
}

proof fn lemma_different(s: Seq<Seq<char>>)
    ensures
        table::joined_all(Seq::empty(), s).no_duplicates(),
        forall|x: Seq<char>| #[trigger]
            table::joined_all(Seq::empty(), s).contains(x) <==> s.contains(x),
    decreases s.len(),
{
    let all = table::joined_all(Seq::empty(), s);
    if s.len() > 0 {
        let front = s.drop_last();
        let before = table::joined_all(Seq::empty(), front);
        let last = s.last();
        lemma_different(front);
        assert forall|x: Seq<char>| #[trigger] all.contains(x) <==> s.contains(x) by {
            table::lemma_joined_contains(before, last, x);
            if front.contains(x) {
                assert(s[front.index_of(x)] == x);
            }
            if s.contains(x) {
                let i = s.index_of(x);
                if i < front.len() {
                    assert(front[i] == x);
                }
            }
            if x == last {
                assert(s[s.len() - 1] == x);
            }
            assert(before.contains(x) <==> front.contains(x));
        }
        assert forall|i: int, j: int| 0 <= i < all.len() && 0 <= j < all.len() && i != j implies all[i]
            != all[j] by {
            if i < before.len() {
                assert(before.contains(before[i]));
            }
            if j < before.len() {
                assert(before.contains(before[j]));
            }
        }
    }
}

/// A quorum is met whenever all attestors are members and enough of them are
/// different, however many members there are.
pub proof fn lemma_quorum_is_met(
    anchor: AuthorityAnchorView,
    members: Seq<Seq<char>>,
    some: Seq<Seq<char>>,
)
    requires
        forall|i: int|
            0 <= i < anchor.attestors.len() ==> members.contains(#[trigger] anchor.attestors[i]),
        enough(some, anchor.attestors, asked(anchor)),
    ensures
        quorum(anchor, members),
{
    let all = table::joined_all(Seq::empty(), anchor.attestors);
    lemma_different(anchor.attestors);
    assert forall|i: int| 0 <= i < some.len() implies all.contains(#[trigger] some[i]) by {
        assert(anchor.attestors.contains(some[i]));
    }
    order::lemma_fits(some, all);
    assert forall|i: int| 0 <= i < all.len() implies members.contains(#[trigger] all[i]) by {
        assert(all.contains(all[i]));
        let k = anchor.attestors.index_of(all[i]);
        assert(members.contains(anchor.attestors[k]));
    }
}

/// A quorum is met only by members, as many different ones as the anchor asks
/// for.
pub proof fn lemma_quorum_is_of_members(anchor: AuthorityAnchorView, members: Seq<Seq<char>>)
    requires
        quorum(anchor, members),
    ensures
        forall|i: int|
            0 <= i < anchor.attestors.len() ==> members.contains(#[trigger] anchor.attestors[i]),
        exists|some: Seq<Seq<char>>| #[trigger] enough(some, anchor.attestors, asked(anchor)),
{
    let all = table::joined_all(Seq::empty(), anchor.attestors);
    lemma_different(anchor.attestors);
    assert forall|i: int| 0 <= i < anchor.attestors.len() implies members.contains(
        #[trigger] anchor.attestors[i],
    ) by {
        assert(anchor.attestors.contains(anchor.attestors[i]));
        assert(all.contains(anchor.attestors[i]));
        let k = all.index_of(anchor.attestors[i]);
        assert(all[k] == anchor.attestors[i]);
        assert(members.contains(all[k]));
    }
    assert forall|i: int| 0 <= i < all.len() implies anchor.attestors.contains(
        #[trigger] all[i],
    ) by {
        assert(all.contains(all[i]));
    }
    assert(enough(all, anchor.attestors, asked(anchor)));
}

/// A new member undoes no quorum.
pub proof fn lemma_quorum_survives_growth(
    anchor: AuthorityAnchorView,
    members: Seq<Seq<char>>,
    new: Seq<char>,
)
    requires
        quorum(anchor, members),
    ensures
        quorum(anchor, members.push(new)),
{
    let all = table::joined_all(Seq::empty(), anchor.attestors);
    assert forall|i: int| 0 <= i < all.len() implies members.push(new).contains(
        #[trigger] all[i],
    ) by {
        let k = members.index_of(all[i]);
        assert(members.push(new)[k] == all[i]);
    }
}

proof fn lemma_name_ends(s: Seq<char>, name: Seq<char>, rest: Seq<char>)
    requires
        forall|i: int|
            0 <= i < name.len() ==> (#[trigger] name[i]) != '/' && name[i] != '#' && name[i] != '?'
                && name[i] != ' ',
        rest.len() > 0 ==> rest[0] == '/' || rest[0] == '#' || rest[0] == '?' || rest[0] == ' ',
        s == name + rest,
    ensures
        up_to_end(s) == name,
    decreases name.len(),
{
    if name.len() == 0 {
        assert(s =~= rest);
        assert(up_to_end(s) =~= name);
    } else {
        assert(s[0] == name[0]);
        assert(s.drop_first() =~= name.drop_first() + rest);
        assert forall|i: int| 0 <= i < name.drop_first().len() implies (
        #[trigger] name.drop_first()[i]) != '/' && name.drop_first()[i] != '#'
            && name.drop_first()[i] != '?' && name.drop_first()[i] != ' ' by {
            assert(name.drop_first()[i] == name[i + 1]);
        }
        lemma_name_ends(s.drop_first(), name.drop_first(), rest);
        assert(seq![name[0]] + name.drop_first() =~= name);
    }
}

/// A locator that mentions a collective, and none before, names it: the name
/// runs up to a slash, a hash, a question mark or a space.
pub proof fn lemma_locator_names_collective(before: Seq<char>, name: Seq<char>, rest: Seq<char>)
    requires
        name.len() > 0,
        forall|i: int|
            0 <= i < name.len() ==> (#[trigger] name[i]) != '/' && name[i] != '#' && name[i] != '?'
                && name[i] != ' ',
        rest.len() > 0 ==> rest[0] == '/' || rest[0] == '#' || rest[0] == '?' || rest[0] == ' ',
        forall|j: int|
            0 <= j < before.len() ==> !#[trigger] text::occurs_at(
                before + "collective:"@ + name + rest,
                "collective:"@,
                j,
            ),
    ensures
        collective_in(Some(before + "collective:"@ + name + rest)) == Some(name),
{
    let mark = "collective:"@;
    let s = before + mark + name + rest;
    let at = before.len() as int;
    assert(s.subrange(at, at + mark.len()) =~= mark);
    assert(text::occurs_at(s, mark, at));
    let f = first_at(s, mark);
    assert(text::occurs_at(s, mark, f) && forall|j: int| 0 <= j < f ==> !text::occurs_at(s, mark, j));
    if f < at {
        assert(!text::occurs_at(s, mark, f));
    } else if at < f {
        assert(!text::occurs_at(s, mark, at));
    }
    let tail = s.subrange(at + mark.len(), s.len() as int);
    assert(tail =~= name + rest);
    lemma_name_ends(tail, name, rest);
}

/// A locator without the mention of a collective names none.
pub proof fn lemma_locator_without_collective(s: Seq<char>)
    requires
        !text::occurs_in(s, "collective:"@),
    ensures
        collective_in(Some(s)) is None,
        collective_in(None) is None,
{
}

} // verus!
