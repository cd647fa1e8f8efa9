//! Issues: what one is, how big a family of them is, and the order they are
//! shown in.

use vstd::prelude::*;

use crate::domain::kinds::{IssueId, Priority, Size, Status};
use crate::domain::tag;
use crate::domain::tag::Tag;
use crate::text;
use crate::time::Timestamp;

verus! {

broadcast use vstd::seq_lib::group_seq_properties;

/// An Issue as the contracts speak of it: its fields, with texts as sequences
/// of characters.
#[verifier::ext_equal]
pub struct IssueModel {
    pub id: IssueId,
    pub title: Seq<char>,
    pub body: Seq<char>,
    pub status: Status,
    pub priority: Priority,
    pub size: Option<Size>,
    pub tags: Seq<Seq<char>>,
    pub parent_id: Option<IssueId>,
    pub created_at: Timestamp,
    pub updated_at: Timestamp,
}

/// A single unit of tracked work.
#[derive(Debug)]
pub struct Issue {
    pub id: IssueId,
    pub title: String,
    pub body: String,
    pub status: Status,
    pub priority: Priority,
    /// How big this piece of work is on its own.
    ///
    /// For a Parent this is the work its parts do not cover (integration,
    /// review, the bits that never became their own Issue), which is what
    /// makes [`SizeRollup`] adding rather than double-counting.
    pub size: Option<Size>,
    /// Sorted, and free of case-variant duplicates. Maintained through
    /// [`crate::domain::normalise_tags`].
    pub tags: Vec<Tag>,
    /// The Issue this one is part of, if any.
    ///
    /// Hierarchy is exactly one level deep: an Issue with a parent has no
    /// sub-issues of its own. Nothing in this type enforces that: it is a
    /// condition across Issues, so it lives in the projection.
    pub parent_id: Option<IssueId>,
    pub created_at: Timestamp,
    pub updated_at: Timestamp,
}

impl View for Issue {
    type V = IssueModel;

    open spec fn view(&self) -> IssueModel {
        IssueModel {
            id: self.id,
            title: self.title@,
            body: self.body@,
            status: self.status,
            priority: self.priority,
            size: self.size,
            tags: tag::names(self.tags@),
            parent_id: self.parent_id,
            created_at: self.created_at,
            updated_at: self.updated_at,
        }
    }
}

/// The models of a list of Issues.
pub open spec fn models(issues: Seq<Issue>) -> Seq<IssueModel> {
    issues.map_values(|i: Issue| i@)
}

/// The models of a list of borrowed Issues.
pub open spec fn models_of(issues: Seq<&Issue>) -> Seq<IssueModel> {
    issues.map_values(|i: &Issue| i@)
}

/// Whether two lists of names are the same Tags, spelling aside.
pub open spec fn same_tags(a: Seq<Seq<char>>, b: Seq<Seq<char>>) -> bool {
    a.len() == b.len() && forall|i: int|
        0 <= i < a.len() ==> tag::key_of(#[trigger] a[i]) == tag::key_of(b[i])
}

impl IssueModel {
    /// Whether two Issues are equal: in every field, Tags without regard to
    /// their spelling.
    pub open spec fn same_as(self, other: IssueModel) -> bool {
        &&& self.id == other.id
        &&& self.title == other.title
        &&& self.body == other.body
        &&& self.status == other.status
        &&& self.priority == other.priority
        &&& self.size == other.size
        &&& same_tags(self.tags, other.tags)
        &&& self.parent_id == other.parent_id
        &&& self.created_at == other.created_at
        &&& self.updated_at == other.updated_at
    }
}

/// Copies a list of Tags.
pub fn clone_tags(tags: &Vec<Tag>) -> (r: Vec<Tag>)
    ensures
        tag::names(r@) == tag::names(tags@),
{
    let mut copy: Vec<Tag> = Vec::new();
    let mut i: usize = 0;
    while i < tags.len()
        invariant
            i <= tags.len(),
            copy.len() == i,
            forall|j: int| 0 <= j < i ==> (#[trigger] copy@[j])@ == tags@[j]@,
        decreases tags.len() - i,
    {
        copy.push(tags[i].clone());
        i += 1;
    }
    assert(tag::names(copy@) =~= tag::names(tags@));
    copy
}

/// Whether two lists of Tags are the same, spelling aside.
fn tags_match(a: &Vec<Tag>, b: &Vec<Tag>) -> (r: bool)
    ensures
        r == same_tags(tag::names(a@), tag::names(b@)),
{
    let ghost left = tag::names(a@);
    let ghost right = tag::names(b@);
    if a.len() != b.len() {
        return false;
    }
    let mut i: usize = 0;
    while i < a.len()
        invariant
            i <= a.len(),
            a.len() == b.len(),
            left == tag::names(a@),
            right == tag::names(b@),
            forall|j: int| 0 <= j < i ==> tag::key_of(#[trigger] left[j]) == tag::key_of(right[j]),
        decreases a.len() - i,
    {
        assert(left[i as int] == a@[i as int]@ && right[i as int] == b@[i as int]@);
        if !a[i].is(&b[i]) {
            return false;
        }
        i += 1;
    }
    true
}

impl Clone for Issue {
    fn clone(&self) -> (r: Issue)
        ensures
            r@ == self@,
    {
        Issue {
            id: self.id,
            title: self.title.clone(),
            body: self.body.clone(),
            status: self.status,
            priority: self.priority,
            size: self.size,
            tags: clone_tags(&self.tags),
            parent_id: self.parent_id,
            created_at: self.created_at,
            updated_at: self.updated_at,
        }
    }
}

impl PartialEq for Issue {
    fn eq(&self, other: &Issue) -> (r: bool) {
        self.id == other.id && text::same(self.title.as_str(), other.title.as_str()) && text::same(
            self.body.as_str(),
            other.body.as_str(),
        ) && self.status == other.status && self.priority == other.priority && self.size
            == other.size && tags_match(&self.tags, &other.tags) && self.parent_id
            == other.parent_id && self.created_at == other.created_at && self.updated_at
            == other.updated_at
    }
}

impl vstd::std_specs::cmp::PartialEqSpecImpl for Issue {
    open spec fn obeys_eq_spec() -> bool {
        true
    }

    open spec fn eq_spec(&self, other: &Issue) -> bool {
        self@.same_as(other@)
    }
}

impl Eq for Issue {

}

/// The title as shown where the user has typed none.
pub open spec fn shown_title(title: Seq<char>) -> Seq<char> {
    if text::trimmed(title).len() == 0 {
        "Untitled"@
    } else {
        title
    }
}

/// The title as displayed when the user hasn't typed one yet.
///
/// Free-standing because not every surface holds an [`Issue`]: some see a
/// title that arrived as JSON. A blank title has to read the same in a terminal
/// as it does in the window, and it will not if each surface decides for
/// itself.
pub fn display_title(title: &str) -> (r: &str)
    ensures
        r@ == shown_title(title@),
{
    if text::char_count(text::trim(title).as_str()) == 0 {
        "Untitled"
    } else {
        title
    }
}

impl Issue {
    /// An Issue not yet filed: defaults everywhere but the title.
    ///
    /// Its `id` and timestamps are placeholders: they are the database's to
    /// assign, whatever a draft carries there.
    pub fn draft(title: &str) -> (r: Issue)
        ensures
            r.id == 0,
            r.title@ == title@,
            r.body@ == Seq::<char>::empty(),
            r.status == Status::Todo,
            r.priority == Priority::Unset,
            r.size is None,
            r.tags@ == Seq::<Tag>::empty(),
            r.parent_id is None,
            r.created_at.spec_secs() == 0 && r.created_at.spec_nanos() == 0,
            r.updated_at == r.created_at,
    {
        let epoch = Timestamp::epoch();
        Issue {
            id: 0,
            title: title.to_owned(),
            body: String::new(),
            status: Status::default(),
            priority: Priority::default(),
            size: None,
            tags: Vec::new(),
            parent_id: None,
            created_at: epoch,
            updated_at: epoch,
        }
    }

    /// The title as displayed when the user hasn't typed one yet.
    pub fn display_title(&self) -> (r: &str)
        ensures
            r@ == shown_title(self@.title),
    {
        display_title(self.title.as_str())
    }
}

// ---------------------------------------------------------------------------
// Sizes
// ---------------------------------------------------------------------------

/// The sum of the Sizes there are.
pub open spec fn size_sum(sizes: Seq<Option<Size>>) -> nat
    decreases sizes.len(),
{
    if sizes.len() == 0 {
        0
    } else {
        size_sum(sizes.drop_last()) + match sizes.last() {
            Some(size) => size as nat,
            None => 0,
        }
    }
}

/// Whether any Size is there at all.
pub open spec fn any_sized(sizes: Seq<Option<Size>>) -> bool {
    exists|i: int| 0 <= i < sizes.len() && (#[trigger] sizes[i]) is Some
}

/// The Sizes of an Issue and its parts, the Issue's own first.
pub open spec fn family_sizes(own: IssueModel, parts: Seq<IssueModel>) -> Seq<Option<Size>> {
    seq![own.size] + parts.map_values(|part: IssueModel| part.size)
}

/// What a family of Sizes adds up to, where there are any.
pub open spec fn family_total(own: IssueModel, parts: Seq<IssueModel>) -> Option<nat> {
    if any_sized(family_sizes(own, parts)) {
        Some(size_sum(family_sizes(own, parts)))
    } else {
        None
    }
}

/// How many of the parts have no Size.
pub open spec fn unsized_parts(parts: Seq<IssueModel>) -> nat {
    parts.filter(|part: IssueModel| part.size is None).len()
}

/// An Issue's Size together with its parts'.
///
/// Derived on every read and never stored: a stored total is a second copy of
/// something the Issues already say, and it goes wrong the moment a part is
/// moved, deleted, or resized. Summing a few thousand Issues in memory is free.
///
/// Settled parts still count. A Size is a fact about the work, not about how
/// much of it is left, so a Parent does not shrink as you finish it.
#[derive(Debug, Clone, Copy, PartialEq, Eq, Structural)]
pub struct SizeRollup {
    /// The Issue's own Size plus its parts'. `None` when nothing in the family
    /// carries one, distinct from `Some(0)`, which is a family that adds up to
    /// no work.
    pub total: Option<u32>,
    /// How many parts have no Size. A total that silently omitted them would
    /// be a lower bound presented as a figure.
    pub unsized_sub_issues: usize,
}

impl SizeRollup {
    /// Takes the parts themselves rather than a count, so the two numbers are
    /// derived from one slice and cannot contradict each other.
    pub fn of(issue: &Issue, sub_issues: &[&Issue]) -> (r: SizeRollup)
        requires
            size_sum(family_sizes(issue@, models_of(sub_issues@))) <= u32::MAX,
        ensures
            match r.total {
                Some(total) => family_total(issue@, models_of(sub_issues@)) == Some(total as nat),
                None => family_total(issue@, models_of(sub_issues@)) is None,
            },
            r.unsized_sub_issues == unsized_parts(models_of(sub_issues@)),
    {
        let ghost parts = models_of(sub_issues@);
        let ghost sizes = family_sizes(issue@, parts);
        let ghost no_size = |part: IssueModel| part.size is None;
        let mut total: Option<u32> = match issue.size {
            Some(size) => Some(size as u32),
            None => None,
        };
        let mut missing: usize = 0;
        let mut i: usize = 0;
        proof {
            reveal_with_fuel(size_sum, 2);
            assert(sizes.take(1) =~= seq![issue@.size]);
            assert(sizes.take(1).drop_last() =~= Seq::<Option<Size>>::empty());
            assert(parts.take(0) =~= Seq::<IssueModel>::empty());
            assert(parts.take(0).filter(no_size).len() == 0) by {
                reveal(Seq::filter);
            }
            assert(issue.size is Some ==> sizes.take(1)[0] is Some);
        }
        while i < sub_issues.len()
            invariant
                i <= sub_issues.len(),
                parts == models_of(sub_issues@),
                sizes == family_sizes(issue@, parts),
                no_size == (|part: IssueModel| part.size is None),
                size_sum(sizes) <= u32::MAX,
                total is Some <==> any_sized(sizes.take(i + 1)),
                (match total {
                    Some(n) => n as nat,
                    None => 0,
                }) == size_sum(sizes.take(i + 1)),
                missing == parts.take(i as int).filter(no_size).len(),
                missing <= i,
            decreases sub_issues.len() - i,
        {
            proof {
                let next = sizes.take(i + 2);
                assert(next.drop_last() =~= sizes.take(i + 1));
                assert(next.last() == parts[i as int].size);
                lemma_size_sum_grows(sizes, i + 2);
                assert(parts.take(i + 1).drop_last() =~= parts.take(i as int));
                assert(parts.take(i + 1).last() == parts[i as int]);
                reveal(Seq::filter);
                if any_sized(sizes.take(i + 1)) {
                    let k = choose|k: int|
                        0 <= k < sizes.take(i + 1).len() && (#[trigger] sizes.take(i + 1)[k]) is Some;
                    assert(next[k] is Some);
                }
                if any_sized(next) && next.last() is None {
                    let k = choose|k: int| 0 <= k < next.len() && (#[trigger] next[k]) is Some;
                    assert(sizes.take(i + 1)[k] is Some);
                }
                if next.last() is Some {
                    assert(next[i + 1] is Some);
                }
            }
            match sub_issues[i].size {
                Some(size) => {
                    let sum: u32 = match total {
                        Some(n) => n,
                        None => 0,
                    };
                    total = Some(sum + size as u32);
                },
                None => {
                    missing += 1;
                },
            }
            i += 1;
        }
        assert(sizes.take(i + 1) =~= sizes);
        assert(parts.take(i as int) =~= parts);
        SizeRollup { total, unsized_sub_issues: missing }
    }
}

proof fn lemma_size_sum_grows(sizes: Seq<Option<Size>>, n: int)
    requires
        0 <= n <= sizes.len(),
    ensures
        size_sum(sizes.take(n)) <= size_sum(sizes),
    decreases sizes.len(),
{
    if n == sizes.len() {
        assert(sizes.take(n) =~= sizes);
    } else {
        lemma_size_sum_grows(sizes.drop_last(), n);
        assert(sizes.drop_last().take(n) =~= sizes.take(n));
    }
}

// ---------------------------------------------------------------------------
// Display order
// ---------------------------------------------------------------------------

/// Whether one Issue is shown before another: the higher Priority first, then
/// the more recently updated, then the higher id.
pub open spec fn shown_before(a: IssueModel, b: IssueModel) -> bool {
    if a.priority.rank_spec() != b.priority.rank_spec() {
        a.priority.rank_spec() > b.priority.rank_spec()
    } else if b.updated_at.is_earlier(a.updated_at) {
        true
    } else if a.updated_at.is_earlier(b.updated_at) {
        false
    } else {
        a.id > b.id
    }
}

/// Whether Issues stand in the order they are shown in.
pub open spec fn in_display_order(issues: Seq<IssueModel>) -> bool {
    forall|i: int, j: int|
        0 <= i < j < issues.len() ==> !shown_before(#[trigger] issues[j], #[trigger] issues[i])
}

/// Issues in display order with one more at its place, behind those it ties
/// with.
pub open spec fn placed(issues: Seq<IssueModel>, issue: IssueModel) -> Seq<IssueModel>
    decreases issues.len(),
{
    if issues.len() == 0 || !shown_before(issue, issues.last()) {
        issues.push(issue)
    } else {
        placed(issues.drop_last(), issue).push(issues.last())
    }
}

/// Issues put into display order, those that tie in the order they came.
pub open spec fn displayed(issues: Seq<IssueModel>) -> Seq<IssueModel>
    decreases issues.len(),
{
    if issues.len() == 0 {
        Seq::<IssueModel>::empty()
    } else {
        placed(displayed(issues.drop_last()), issues.last())
    }
}

/// Whether one Issue is shown before another.
fn is_shown_before(a: &Issue, b: &Issue) -> (r: bool)
    ensures
        r == shown_before(a@, b@),
{
    if a.priority.rank() != b.priority.rank() {
        a.priority.rank() > b.priority.rank()
    } else if b.updated_at.earlier_than(a.updated_at) {
        true
    } else if a.updated_at.earlier_than(b.updated_at) {
        false
    } else {
        a.id > b.id
    }
}

/// Orders Issues for display: highest priority first, then most recently
/// updated. Ties break on `id` so the order is never ambiguous.
pub fn sort_for_display(issues: &mut Vec<Issue>)
    ensures
        models(final(issues)@) == displayed(models(old(issues)@)),
{
    let ghost given = models(issues@);
    let mut done: usize = 0;
    assert(models(issues@) =~= displayed(given.take(0)) + given.skip(0));
    while done < issues.len()
        invariant
            done <= issues.len(),
            issues.len() == given.len(),
            displayed(given.take(done as int)).len() == done,
            models(issues@) == displayed(given.take(done as int)) + given.skip(done as int),
        decreases issues.len() - done,
    {
        let ghost sorted = displayed(given.take(done as int));
        let ghost next = given[done as int];
        let ghost before = issues@;
        assert(models(issues@)[done as int] == next);
        assert(issues@[done as int]@ == next);
        let mut at: usize = done;
        assert(sorted.take(at as int) =~= sorted);
        assert(placed(sorted.take(at as int), next) + sorted.skip(at as int) =~= placed(sorted, next));
        while at > 0 && is_shown_before(&issues[done], &issues[at - 1])
            invariant
                at <= done < issues.len(),
                issues@ == before,
                before[done as int]@ == next,
                sorted.len() == done,
                models(before) == sorted + given.skip(done as int),
                placed(sorted, next) == placed(sorted.take(at as int), next) + sorted.skip(
                    at as int,
                ),
            decreases at,
        {
            proof {
                let head = sorted.take(at as int);
                assert(models(before)[at - 1] == sorted[at - 1]);
                assert(head.last() == before[at - 1]@);
                assert(head.drop_last() =~= sorted.take(at - 1));
                assert(placed(head.drop_last(), next).push(head.last()) + sorted.skip(at as int)
                    =~= placed(sorted.take(at - 1), next) + sorted.skip(at - 1));
            }
            at -= 1;
        }
        proof {
            let head = sorted.take(at as int);
            if at > 0 {
                assert(models(before)[at - 1] == sorted[at - 1]);
                assert(head.last() == before[at - 1]@);
            }
            assert(placed(head, next) =~= head.push(next));
            assert(given.take(done + 1).drop_last() =~= given.take(done as int));
            assert(given.take(done + 1).last() == next);
            assert(displayed(given.take(done + 1)) == head.push(next) + sorted.skip(at as int));
        }
        let issue = issues.remove(done);
        issues.insert(at, issue);
        proof {
            let moved = before.remove(done as int).insert(at as int, before[done as int]);
            assert(issues@ =~= moved);
            let want = displayed(given.take(done + 1)) + given.skip(done + 1);
            assert(models(issues@) =~= want) by {
                assert forall|k: int| 0 <= k < want.len() implies #[trigger] models(issues@)[k]
                    == want[k] by {
                    assert(models(before)[k] == (sorted + given.skip(done as int))[k]);
                    if k > 0 {
                        assert(models(before)[k - 1] == (sorted + given.skip(done as int))[k - 1]);
                    }
                }
            }
        }
        done += 1;
    }
    assert(given.take(done as int) =~= given);
    assert(models(issues@) =~= displayed(given));
}

proof fn lemma_placing_keeps_order(issues: Seq<IssueModel>, issue: IssueModel)
    requires
        in_display_order(issues),
    ensures
        in_display_order(placed(issues, issue)),
        placed(issues, issue).len() == issues.len() + 1,
        placed(issues, issue).to_multiset() == issues.to_multiset().insert(issue),
        forall|i: int|
            0 <= i < placed(issues, issue).len() ==> issues.contains(
                #[trigger] placed(issues, issue)[i],
            ) || placed(issues, issue)[i] == issue,
    decreases issues.len(),
{
    broadcast use vstd::seq_lib::group_to_multiset_ensures;

    let out = placed(issues, issue);
    if issues.len() == 0 || !shown_before(issue, issues.last()) {
        assert forall|i: int, j: int| 0 <= i < j < out.len() implies !shown_before(
            #[trigger] out[j],
            #[trigger] out[i],
        ) by {
            if j == issues.len() {
                assert(!shown_before(issues.last(), issues[i]) || i == issues.len() - 1);
            }
        }
        assert forall|i: int| 0 <= i < out.len() implies issues.contains(#[trigger] out[i]) || out[i]
            == issue by {
            if i < issues.len() {
                assert(issues[i] == out[i]);
            }
        }
    } else {
        let rest = issues.drop_last();
        lemma_placing_keeps_order(rest, issue);
        let head = placed(rest, issue);
        assert forall|i: int| 0 <= i < out.len() implies issues.contains(#[trigger] out[i]) || out[i]
            == issue by {
            if i < head.len() {
                assert(out[i] == head[i]);
                if rest.contains(head[i]) {
                    let k = choose|k: int| 0 <= k < rest.len() && rest[k] == head[i];
                    assert(issues[k] == out[i]);
                }
            } else {
                assert(issues[issues.len() - 1] == out[i]);
            }
        }
        assert forall|i: int, j: int| 0 <= i < j < out.len() implies !shown_before(
            #[trigger] out[j],
            #[trigger] out[i],
        ) by {
            if j == head.len() {
                assert(out[i] == head[i]);
                if rest.contains(head[i]) {
                    let k = choose|k: int| 0 <= k < rest.len() && rest[k] == head[i];
                    assert(!shown_before(issues[issues.len() - 1], issues[k]));
                }
            } else {
                assert(out[j] == head[j] && out[i] == head[i]);
            }
        }
        assert(issues =~= rest.push(issues.last()));
        assert(out.to_multiset() =~= issues.to_multiset().insert(issue));
    }
}

/// Putting Issues into display order orders them, and neither loses nor adds
/// one.
pub proof fn display_order_is_a_rearrangement(issues: Seq<IssueModel>)
    ensures
        in_display_order(displayed(issues)),
        displayed(issues).len() == issues.len(),
        displayed(issues).to_multiset() == issues.to_multiset(),
    decreases issues.len(),
{
    broadcast use vstd::seq_lib::group_to_multiset_ensures;

    if issues.len() > 0 {
        display_order_is_a_rearrangement(issues.drop_last());
        lemma_placing_keeps_order(displayed(issues.drop_last()), issues.last());
        assert(issues =~= issues.drop_last().push(issues.last()));
    } else {
        assert(displayed(issues) =~= issues);
    }
}

proof fn lemma_placing_the_last(issues: Seq<IssueModel>, issue: IssueModel)
    requires
        in_display_order(issues.push(issue)),
    ensures
        placed(issues, issue) == issues.push(issue),
{
    if issues.len() > 0 {
        let all = issues.push(issue);
        assert(!shown_before(all[issues.len() as int], all[issues.len() - 1]));
    }
}

/// What stands in display order stays as it is when it is ordered again.
pub proof fn ordering_what_is_in_order_changes_nothing(issues: Seq<IssueModel>)
    requires
        in_display_order(issues),
    ensures
        displayed(issues) == issues,
    decreases issues.len(),
{
    if issues.len() > 0 {
        let rest = issues.drop_last();
        assert(issues =~= rest.push(issues.last()));
        assert forall|i: int, j: int| 0 <= i < j < rest.len() implies !shown_before(
            #[trigger] rest[j],
            #[trigger] rest[i],
        ) by {
            assert(rest[j] == issues[j] && rest[i] == issues[i]);
        }
        ordering_what_is_in_order_changes_nothing(rest);
        lemma_placing_the_last(rest, issues.last());
    } else {
        assert(displayed(issues) =~= issues);
    }
}

/// No two Issues with different ids tie, so their display order is never
/// ambiguous.
pub proof fn display_order_is_never_ambiguous(a: IssueModel, b: IssueModel)
    requires
        a.id != b.id,
    ensures
        shown_before(a, b) != shown_before(b, a),
{
}

} // verus!
