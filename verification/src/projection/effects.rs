//! What each change does to the Issues, field by field.

use vstd::prelude::*;

use crate::domain::issue;
use crate::domain::issue::IssueModel;
use crate::domain::kinds::{IssueId, Priority, Size, Status};
use crate::domain::tag;
use crate::projection::laws;
use crate::projection::model;
use crate::projection::model::ChangeModel;
use crate::projection::{PatchModel, Refused, WriteErrorModel};
use crate::text;
use crate::time::Timestamp;

verus! {

broadcast use vstd::seq_lib::group_seq_properties;

// ---------------------------------------------------------------------------
// Words for what follows
// ---------------------------------------------------------------------------

/// Whether two Issues say the same in every field but the one that tells what
/// they are part of.
pub open spec fn alike_but_for_parent(a: IssueModel, b: IssueModel) -> bool {
    &&& b.id == a.id
    &&& b.title == a.title
    &&& b.body == a.body
    &&& b.status == a.status
    &&& b.priority == a.priority
    &&& b.size == a.size
    &&& b.tags == a.tags
    &&& b.created_at == a.created_at
    &&& b.updated_at == a.updated_at
}

/// Whether some names hold one with this key.
pub open spec fn holds_key(names: Seq<Seq<char>>, key: Seq<char>) -> bool {
    exists|i: int| 0 <= i < names.len() && text::lowercased(#[trigger] names[i]) == key
}

/// Whether no two of some names have one key.
pub open spec fn no_key_twice(names: Seq<Seq<char>>) -> bool {
    forall|i: int, j: int|
        0 <= i < j < names.len() ==> text::lowercased(#[trigger] names[i]) != text::lowercased(
            #[trigger] names[j],
        )
}

/// Whether some Issue carries a Tag in this very spelling.
pub open spec fn spelled_somewhere(issues: Seq<IssueModel>, name: Seq<char>) -> bool {
    exists|a: IssueModel| #[trigger] issues.contains(a) && a.tags.contains(name)
}

/// Whether some Issue carries a Tag, however spelled.
pub open spec fn carried_somewhere(issues: Seq<IssueModel>, key: Seq<char>) -> bool {
    exists|a: IssueModel| #[trigger] issues.contains(a) && holds_key(a.tags, key)
}

/// Whether an Issue is still to be dealt with.
pub open spec fn is_open_work(a: IssueModel) -> bool {
    a.status == Status::Todo || a.status == Status::Doing || a.status == Status::Blocked
}

/// Whether a planned change goes through and leaves the Issue like this.
pub open spec fn leaves(plan: Result<ChangeModel, WriteErrorModel>, next: IssueModel) -> bool {
    plan == Ok::<ChangeModel, WriteErrorModel>(ChangeModel::Write(next)) || plan == Ok::<
        ChangeModel,
        WriteErrorModel,
    >(ChangeModel::Unchanged(next))
}

proof fn lemma_the_issue(issues: Seq<IssueModel>, cur: IssueModel)
    requires
        laws::distinct_ids(issues),
        issues.contains(cur),
    ensures
        model::found(issues, cur.id) == Some(cur),
{
    laws::an_issue_is_found_by_its_id(issues, cur.id);
}

pub proof fn lemma_holds_key(names: Seq<Seq<char>>, name: Seq<char>)
    ensures
        tag::has_tag(names, name) <==> holds_key(names, text::lowercased(name)),
{
    if tag::has_tag(names, name) {
        let i = choose|i: int|
            0 <= i < names.len() && tag::key_of(#[trigger] names[i]) == tag::key_of(name);
        assert(text::lowercased(names[i]) == text::lowercased(name));
    }
    if holds_key(names, text::lowercased(name)) {
        let i = choose|i: int|
            0 <= i < names.len() && text::lowercased(#[trigger] names[i]) == text::lowercased(name);
        assert(tag::key_of(names[i]) == tag::key_of(name));
    }
}

// ---------------------------------------------------------------------------
// Erasing
// ---------------------------------------------------------------------------

/// Erasing an Issue takes it away and leaves every other with the id, title,
/// body, Status, Priority, Size, Tags and moments it had. What was part of the
/// erased one is part of nothing; what any other is part of stays.
pub proof fn erasing_frees_the_parts_and_changes_nothing_else(
    issues: Seq<IssueModel>,
    id: IssueId,
)
    ensures
        forall|a: IssueModel| #[trigger]
            issues.contains(a) && a.id != id ==> exists|b: IssueModel| #[trigger]
                model::after_delete(issues, id).contains(b) && alike_but_for_parent(a, b)
                    && b.parent_id == if a.parent_id == Some(id) {
                    None
                } else {
                    a.parent_id
                },
        forall|b: IssueModel| #[trigger]
            model::after_delete(issues, id).contains(b) ==> b.id != id && exists|a: IssueModel|
             #[trigger]
                issues.contains(a) && alike_but_for_parent(a, b) && b.parent_id
                    == if a.parent_id == Some(id) {
                    None
                } else {
                    a.parent_id
                },
        laws::distinct_ids(issues) ==> laws::distinct_ids(model::after_delete(issues, id)),
        issue::in_display_order(issues) ==> issue::in_display_order(
            model::after_delete(issues, id),
        ),
{
    let out = model::after_delete(issues, id);
    let pass = |i: IssueModel| i.id != id;
    let kept = issues.filter(pass);
    laws::lemma_filter_contents(issues, pass);
    assert forall|a: IssueModel| #[trigger] issues.contains(a) && a.id != id implies exists|
        b: IssueModel,
    | #[trigger]
        out.contains(b) && alike_but_for_parent(a, b) && b.parent_id == if a.parent_id == Some(
            id,
        ) {
            None
        } else {
            a.parent_id
        } by {
        assert(kept.contains(a));
        let k = choose|k: int| 0 <= k < kept.len() && kept[k] == a;
        assert(out.contains(out[k]));
    }
    assert forall|b: IssueModel| #[trigger] out.contains(b) implies b.id != id && exists|
        a: IssueModel,
    | #[trigger]
        issues.contains(a) && alike_but_for_parent(a, b) && b.parent_id == if a.parent_id == Some(
            id,
        ) {
            None
        } else {
            a.parent_id
        } by {
        let k = choose|k: int| 0 <= k < out.len() && out[k] == b;
        assert(kept.contains(kept[k]));
        assert(issues.contains(kept[k]));
    }
    if laws::distinct_ids(issues) {
        laws::an_erasure_orphans_the_parts(issues, id);
    }
    if issue::in_display_order(issues) {
        crate::projection::lemma_erasing_keeps_order(issues, id);
    }
}

// ---------------------------------------------------------------------------
// Patching
// ---------------------------------------------------------------------------

/// A patch is refused for these reasons and no others: there is no such Issue;
/// it asks for Done over parts that are still to be dealt with, whose number it
/// tells; or it asks for open work under a parent that is Done.
pub proof fn a_patch_is_refused_only_for_the_done_rule(
    issues: Seq<IssueModel>,
    id: IssueId,
    patch: PatchModel,
    holder: IssueId,
)
    requires
        laws::distinct_ids(issues),
        issues.len() <= usize::MAX,
    ensures
        model::to_patch(issues, id, patch) == Err::<ChangeModel, WriteErrorModel>(
            WriteErrorModel::NotFound(id),
        ) <==> !exists|a: IssueModel| #[trigger] issues.contains(a) && a.id == id,
        model::to_patch(issues, id, patch) matches Err(
            WriteErrorModel::Refused(Refused::SubIssuesOutstanding(_)),
        ) <==> patch.status == Some(Status::Done) && (exists|a: IssueModel| #[trigger]
            issues.contains(a) && a.id == id) && (exists|c: IssueModel| #[trigger]
            issues.contains(c) && c.parent_id == Some(id) && is_open_work(c)),
        model::to_patch(issues, id, patch) == Err::<ChangeModel, WriteErrorModel>(
            WriteErrorModel::Refused(Refused::ParentIsDone(holder)),
        ) <==> (patch.status == Some(Status::Todo) || patch.status == Some(Status::Doing)
            || patch.status == Some(Status::Blocked)) && (exists|a: IssueModel| #[trigger]
            issues.contains(a) && a.id == id && a.parent_id == Some(holder)) && (exists|
            h: IssueModel,
        | #[trigger] issues.contains(h) && h.id == holder && h.status == Status::Done),
        model::to_patch(issues, id, patch) matches Err(err) ==> err == WriteErrorModel::NotFound(id)
            || (err matches WriteErrorModel::Refused(Refused::SubIssuesOutstanding(n)) && n
            == issues.filter(|c: IssueModel| c.parent_id == Some(id) && is_open_work(c)).len())
            || err matches WriteErrorModel::Refused(Refused::ParentIsDone(_)),
{
    laws::an_issue_is_found_by_its_id(issues, id);
    laws::lemma_place(issues, id);
    let parts = model::parts(issues, id);
    let open = model::outstanding_of(parts);
    let is_part = |i: IssueModel| i.parent_id == Some(id);
    let outstanding = |i: IssueModel| !i.status.settled();
    let both = |c: IssueModel| c.parent_id == Some(id) && is_open_work(c);
    laws::lemma_filter_contents(issues, is_part);
    laws::lemma_filter_contents(parts, outstanding);
    lemma_filter_twice(issues, is_part, outstanding, both);
    assert(open == issues.filter(both));
    lemma_filter_length(issues, both);
    if open.len() > 0 {
        let c = open[0];
        assert(open.contains(c));
        assert(parts.contains(c));
        assert(issues.contains(c) && c.parent_id == Some(id) && is_open_work(c));
    }
    assert forall|c: IssueModel| #[trigger]
        issues.contains(c) && c.parent_id == Some(id) && is_open_work(c) implies open.len() > 0 by {
        assert(parts.contains(c));
        assert(open.contains(c));
    }
    if let Some(cur) = model::found(issues, id) {
        assert(issues.contains(cur) && cur.id == id);
        if let Some(p) = cur.parent_id {
            laws::an_issue_is_found_by_its_id(issues, p);
        }
    }
}

proof fn lemma_filter_twice<A>(
    all: Seq<A>,
    first: spec_fn(A) -> bool,
    second: spec_fn(A) -> bool,
    both: spec_fn(A) -> bool,
)
    requires
        forall|x: A| #[trigger] both(x) <==> first(x) && second(x),
    ensures
        all.filter(first).filter(second) == all.filter(both),
    decreases all.len(),
{
    reveal(Seq::filter);
    if all.len() > 0 {
        lemma_filter_twice(all.drop_last(), first, second, both);
        let x = all.last();
        let before = all.drop_last().filter(first);
        assert(both(x) <==> first(x) && second(x));
        if first(x) {
            assert(before.push(x).drop_last() =~= before);
        }
    }
}

proof fn lemma_filter_length<A>(all: Seq<A>, pass: spec_fn(A) -> bool)
    ensures
        all.filter(pass).len() <= all.len(),
    decreases all.len(),
{
    reveal(Seq::filter);
    if all.len() > 0 {
        lemma_filter_length(all.drop_last(), pass);
    }
}

/// What a patch that is not refused leaves: every field it names holds exactly
/// what it names, whatever the Issue held before, and every field it does not
/// name is what it was. The Tags it names are there, each once, and no others;
/// one that some Issue carries is spelled as it is carried, any other as it is
/// given.
pub proof fn a_patch_writes_exactly_what_it_names(
    issues: Seq<IssueModel>,
    cur: IssueModel,
    patch: PatchModel,
    next: IssueModel,
)
    requires
        laws::distinct_ids(issues),
        issues.contains(cur),
        leaves(model::to_patch(issues, cur.id, patch), next),
    ensures
        ({
            &&& next.id == cur.id
            &&& next.parent_id == cur.parent_id
            &&& next.created_at == cur.created_at
            &&& next.updated_at == cur.updated_at
            &&& patch.title matches Some(title) ==> next.title == title
            &&& patch.title is None ==> next.title == cur.title
            &&& patch.body matches Some(body) ==> next.body == body
            &&& patch.body is None ==> next.body == cur.body
            &&& patch.status matches Some(status) ==> next.status == status
            &&& patch.status is None ==> next.status == cur.status
            &&& patch.priority matches Some(priority) ==> next.priority == priority
            &&& patch.priority is None ==> next.priority == cur.priority
            &&& patch.size matches Some(size) ==> next.size == size
            &&& patch.size is None ==> next.size == cur.size
            &&& patch.tags is None ==> next.tags == cur.tags
            &&& patch.tags is Some ==> {
                &&& no_key_twice(next.tags)
                &&& forall|i: int|
                    0 <= i < patch.tags->0.len() ==> holds_key(
                        next.tags,
                        text::lowercased(#[trigger] patch.tags->0[i]),
                    )
                &&& forall|k: int|
                    0 <= k < next.tags.len() ==> holds_key(
                        patch.tags->0,
                        text::lowercased(#[trigger] next.tags[k]),
                    )
                &&& forall|k: int|
                    0 <= k < next.tags.len() ==> if carried_somewhere(
                        issues,
                        text::lowercased(#[trigger] next.tags[k]),
                    ) {
                        spelled_somewhere(issues, next.tags[k])
                    } else {
                        patch.tags->0.contains(next.tags[k])
                    }
            }
        }),
{
    lemma_the_issue(issues, cur);
    laws::lemma_place(issues, cur.id);
    if patch.tags is Some {
        lemma_normalised(issues, patch.tags->0);
    }
}

/// What normalising Tags against those in use comes to.
proof fn lemma_normalised(issues: Seq<IssueModel>, names: Seq<Seq<char>>)
    ensures
        ({
            let out = tag::normalised(names, model::vocabulary(issues));
            &&& no_key_twice(out)
            &&& forall|i: int|
                0 <= i < names.len() ==> holds_key(out, text::lowercased(#[trigger] names[i]))
            &&& forall|k: int|
                0 <= k < out.len() ==> holds_key(names, text::lowercased(#[trigger] out[k]))
            &&& forall|k: int|
                0 <= k < out.len() ==> if carried_somewhere(
                    issues,
                    text::lowercased(#[trigger] out[k]),
                ) {
                    spelled_somewhere(issues, out[k])
                } else {
                    names.contains(out[k])
                }
        }),
{
    let in_use = model::vocabulary(issues);
    let out = tag::normalised(names, in_use);
    tag::normalising_keeps_every_tag(names, in_use);
    laws::tags_are_derived_from_use(issues);
    assert forall|i: int, j: int| 0 <= i < j < out.len() implies text::lowercased(
        #[trigger] out[i],
    ) != text::lowercased(#[trigger] out[j]) by {
        assert(text::precedes(tag::key_of(out[i]), tag::key_of(out[j])));
        text::the_order_of_texts_is_total(tag::key_of(out[i]), tag::key_of(out[j]));
    }
    assert forall|i: int| 0 <= i < names.len() implies holds_key(
        out,
        text::lowercased(#[trigger] names[i]),
    ) by {
        lemma_holds_key(out, names[i]);
    }
    assert forall|k: int| 0 <= k < out.len() implies holds_key(
        names,
        text::lowercased(#[trigger] out[k]),
    ) && (if carried_somewhere(issues, text::lowercased(out[k])) {
        spelled_somewhere(issues, out[k])
    } else {
        names.contains(out[k])
    }) by {
        assert(out.contains(out[k]));
        let i = choose|i: int|
            0 <= i < names.len() && out[k] == tag::canonical(#[trigger] names[i], in_use);
        tag::a_settled_spelling_has_its_key(names[i], in_use);
        assert(text::lowercased(names[i]) == text::lowercased(out[k]));
        if carried_somewhere(issues, text::lowercased(out[k])) {
            let a = choose|a: IssueModel| #[trigger]
                issues.contains(a) && holds_key(a.tags, text::lowercased(out[k]));
            lemma_holds_key(a.tags, names[i]);
            let m = choose|m: int|
                0 <= m < a.tags.len() && text::lowercased(#[trigger] a.tags[m])
                    == text::lowercased(out[k]);
            assert(a.tags.contains(a.tags[m]));
            lemma_holds_key(in_use, a.tags[m]);
            lemma_holds_key(in_use, names[i]);
            assert(in_use.contains(out[k]));
        } else if tag::has_tag(in_use, names[i]) {
            assert(in_use.contains(out[k]));
            let a = choose|a: IssueModel| #[trigger]
                issues.contains(a) && a.tags.contains(out[k]);
            let m = choose|m: int| 0 <= m < a.tags.len() && a.tags[m] == out[k];
            assert(text::lowercased(a.tags[m]) == text::lowercased(out[k]));
            assert(holds_key(a.tags, text::lowercased(out[k])));
        } else {
            assert(names.contains(names[i]));
        }
    }
}

/// What a patch that goes through does to the Issues, once it has been stored at
/// some moment: the Issue is there as the patch leaves it, stamped with that
/// moment, and every other Issue is as it was.
pub proof fn a_stored_change_touches_one_issue(
    issues: Seq<IssueModel>,
    next: IssueModel,
    at: Timestamp,
)
    requires
        laws::distinct_ids(issues),
        exists|a: IssueModel| #[trigger] issues.contains(a) && a.id == next.id,
    ensures
        ({
            let after = model::after_update(issues, IssueModel { updated_at: at, ..next });
            &&& exists|b: IssueModel| #[trigger]
                after.contains(b) && b.id == next.id && b.title == next.title && b.body == next.body
                    && b.status == next.status && b.priority == next.priority && b.size == next.size
                    && b.tags == next.tags && b.parent_id == next.parent_id && b.created_at
                    == next.created_at && b.updated_at == at
            &&& forall|a: IssueModel| #[trigger]
                issues.contains(a) && a.id != next.id ==> after.contains(a)
            &&& forall|b: IssueModel| #[trigger]
                after.contains(b) && b.id != next.id ==> issues.contains(b)
            &&& laws::distinct_ids(after)
            &&& after.len() == issues.len()
        }),
{
    let new = IssueModel { updated_at: at, ..next };
    let after = model::after_update(issues, new);
    laws::an_issue_is_found_by_its_id(issues, next.id);
    laws::lemma_place(issues, next.id);
    laws::an_update_replaces_one_issue(issues, new);
    assert(after.contains(new));
    let place = model::place_of(issues, next.id)->0;
    issue::display_order_is_a_rearrangement(issues.update(place, new));
}

/// What filing an Issue does to the Issues: the new one is there, and every
/// other is as it was.
pub proof fn filing_adds_one_issue(issues: Seq<IssueModel>, new: IssueModel)
    requires
        laws::distinct_ids(issues),
        forall|a: IssueModel| #[trigger] issues.contains(a) ==> a.id != new.id,
    ensures
        model::after_insert(issues, new).contains(new),
        forall|a: IssueModel| #[trigger]
            issues.contains(a) ==> model::after_insert(issues, new).contains(a),
        forall|b: IssueModel| #[trigger]
            model::after_insert(issues, new).contains(b) && b != new ==> issues.contains(b),
        model::after_insert(issues, new).len() == issues.len() + 1,
{
    laws::an_issue_is_found_by_its_id(issues, new.id);
    laws::an_insert_adds_one_issue(issues, new);
    issue::display_order_is_a_rearrangement(issues.push(new));
}

/// A planned change comes to nothing exactly where it leaves every field as it
/// was, but for the spelling of Tags.
pub proof fn a_change_is_dropped_only_if_nothing_differs(
    issues: Seq<IssueModel>,
    cur: IssueModel,
    patch: PatchModel,
    next: IssueModel,
)
    requires
        laws::distinct_ids(issues),
        issues.contains(cur),
        leaves(model::to_patch(issues, cur.id, patch), next),
    ensures
        model::to_patch(issues, cur.id, patch) matches Ok(ChangeModel::Unchanged(_)) <==> {
            &&& next.title == cur.title
            &&& next.body == cur.body
            &&& next.status == cur.status
            &&& next.priority == cur.priority
            &&& next.size == cur.size
            &&& next.tags.len() == cur.tags.len()
            &&& forall|i: int|
                0 <= i < cur.tags.len() ==> text::lowercased(#[trigger] next.tags[i])
                    == text::lowercased(cur.tags[i])
        },
{
    lemma_the_issue(issues, cur);
    if issue::same_tags(cur.tags, next.tags) {
        assert forall|i: int| 0 <= i < cur.tags.len() implies text::lowercased(
            #[trigger] next.tags[i],
        ) == text::lowercased(cur.tags[i]) by {
            assert(tag::key_of(cur.tags[i]) == tag::key_of(next.tags[i]));
        }
    }
    if next.tags.len() == cur.tags.len() && forall|i: int|
        0 <= i < cur.tags.len() ==> text::lowercased(#[trigger] next.tags[i]) == text::lowercased(
            cur.tags[i],
        ) {
        assert forall|i: int| 0 <= i < cur.tags.len() implies tag::key_of(
            #[trigger] cur.tags[i],
        ) == tag::key_of(next.tags[i]) by {
            assert(text::lowercased(next.tags[i]) == text::lowercased(cur.tags[i]));
        }
    }
}

// ---------------------------------------------------------------------------
// Tags, one at a time
// ---------------------------------------------------------------------------

/// Adding a Tag to an Issue that is there always goes through. The Issue then
/// carries that Tag and every one it carried before, each once, and no other;
/// nothing else of it changes.
pub proof fn adding_a_tag_adds_that_tag_alone(
    issues: Seq<IssueModel>,
    cur: IssueModel,
    name: Seq<char>,
    next: IssueModel,
)
    requires
        laws::distinct_ids(issues),
        issues.contains(cur),
    ensures
        model::to_add_tag(issues, cur.id, name) is Ok,
        leaves(model::to_add_tag(issues, cur.id, name), next) ==> {
            &&& next.id == cur.id
            &&& next.title == cur.title
            &&& next.body == cur.body
            &&& next.status == cur.status
            &&& next.priority == cur.priority
            &&& next.size == cur.size
            &&& next.parent_id == cur.parent_id
            &&& next.created_at == cur.created_at
            &&& next.updated_at == cur.updated_at
            &&& no_key_twice(next.tags)
            &&& holds_key(next.tags, text::lowercased(name))
            &&& forall|i: int|
                0 <= i < cur.tags.len() ==> holds_key(
                    next.tags,
                    text::lowercased(#[trigger] cur.tags[i]),
                )
            &&& forall|k: int|
                0 <= k < next.tags.len() ==> text::lowercased(#[trigger] next.tags[k])
                    == text::lowercased(name) || holds_key(
                    cur.tags,
                    text::lowercased(next.tags[k]),
                )
        },
{
    lemma_the_issue(issues, cur);
    laws::lemma_place(issues, cur.id);
    let wanted = if tag::has_tag(cur.tags, name) {
        cur.tags
    } else {
        cur.tags.push(name)
    };
    if leaves(model::to_add_tag(issues, cur.id, name), next) {
        a_patch_writes_exactly_what_it_names(issues, cur, model::retagged(wanted), next);
        lemma_holds_key(cur.tags, name);
        if tag::has_tag(cur.tags, name) {
            let i = choose|i: int|
                0 <= i < cur.tags.len() && tag::key_of(#[trigger] cur.tags[i]) == tag::key_of(name);
            assert(holds_key(next.tags, text::lowercased(wanted[i])));
        } else {
            assert(wanted[cur.tags.len() as int] == name);
            assert(holds_key(next.tags, text::lowercased(wanted[cur.tags.len() as int])));
        }
        assert forall|i: int| 0 <= i < cur.tags.len() implies holds_key(
            next.tags,
            text::lowercased(#[trigger] cur.tags[i]),
        ) by {
            assert(wanted[i] == cur.tags[i]);
        }
        assert forall|k: int| 0 <= k < next.tags.len() implies text::lowercased(
            #[trigger] next.tags[k],
        ) == text::lowercased(name) || holds_key(cur.tags, text::lowercased(next.tags[k])) by {
            assert(holds_key(wanted, text::lowercased(next.tags[k])));
            let i = choose|i: int|
                0 <= i < wanted.len() && text::lowercased(#[trigger] wanted[i]) == text::lowercased(
                    next.tags[k],
                );
            if i < cur.tags.len() {
                assert(cur.tags[i] == wanted[i]);
            }
        }
    }
}

/// Taking a Tag off an Issue that is there always goes through. The Issue then
/// carries every Tag it carried before but that one, each once, and no other;
/// nothing else of it changes.
pub proof fn taking_a_tag_off_takes_that_tag_alone(
    issues: Seq<IssueModel>,
    cur: IssueModel,
    name: Seq<char>,
    next: IssueModel,
)
    requires
        laws::distinct_ids(issues),
        issues.contains(cur),
    ensures
        model::to_remove_tag(issues, cur.id, name) is Ok,
        leaves(model::to_remove_tag(issues, cur.id, name), next) ==> {
            &&& next.id == cur.id
            &&& next.title == cur.title
            &&& next.body == cur.body
            &&& next.status == cur.status
            &&& next.priority == cur.priority
            &&& next.size == cur.size
            &&& next.parent_id == cur.parent_id
            &&& next.created_at == cur.created_at
            &&& next.updated_at == cur.updated_at
            &&& no_key_twice(next.tags)
            &&& !holds_key(next.tags, text::lowercased(name))
            &&& forall|i: int|
                0 <= i < cur.tags.len() && text::lowercased(#[trigger] cur.tags[i])
                    != text::lowercased(name) ==> holds_key(
                    next.tags,
                    text::lowercased(cur.tags[i]),
                )
            &&& forall|k: int|
                0 <= k < next.tags.len() ==> holds_key(
                    cur.tags,
                    text::lowercased(#[trigger] next.tags[k]),
                )
        },
{
    lemma_the_issue(issues, cur);
    laws::lemma_place(issues, cur.id);
    let other = |x: Seq<char>| tag::key_of(x) != tag::key_of(name);
    let wanted = cur.tags.filter(other);
    laws::lemma_filter_contents(cur.tags, other);
    if leaves(model::to_remove_tag(issues, cur.id, name), next) {
        a_patch_writes_exactly_what_it_names(issues, cur, model::retagged(wanted), next);
        assert forall|i: int|
            0 <= i < cur.tags.len() && text::lowercased(#[trigger] cur.tags[i])
                != text::lowercased(name) implies holds_key(
            next.tags,
            text::lowercased(cur.tags[i]),
        ) by {
            assert(cur.tags.contains(cur.tags[i]));
            assert(wanted.contains(cur.tags[i]));
            let k = choose|k: int| 0 <= k < wanted.len() && wanted[k] == cur.tags[i];
            assert(holds_key(next.tags, text::lowercased(wanted[k])));
        }
        assert forall|k: int| 0 <= k < next.tags.len() implies holds_key(
            cur.tags,
            text::lowercased(#[trigger] next.tags[k]),
        ) && text::lowercased(next.tags[k]) != text::lowercased(name) by {
            assert(holds_key(wanted, text::lowercased(next.tags[k])));
            let i = choose|i: int|
                0 <= i < wanted.len() && text::lowercased(#[trigger] wanted[i]) == text::lowercased(
                    next.tags[k],
                );
            assert(wanted.contains(wanted[i]));
            assert(cur.tags.contains(wanted[i]));
            let m = choose|m: int| 0 <= m < cur.tags.len() && cur.tags[m] == wanted[i];
            assert(text::lowercased(cur.tags[m]) == text::lowercased(next.tags[k]));
            assert(tag::key_of(wanted[i]) != tag::key_of(name));
        }
    }
}

// ---------------------------------------------------------------------------
// Moving
// ---------------------------------------------------------------------------

/// What moving an Issue leaves: it is part of what was named, or of nothing,
/// and nothing else of it changes.
pub proof fn moving_changes_the_parent_alone(
    issues: Seq<IssueModel>,
    cur: IssueModel,
    parent: Option<IssueId>,
    next: IssueModel,
)
    requires
        laws::distinct_ids(issues),
        issues.contains(cur),
        leaves(model::to_set_parent(issues, cur.id, parent), next),
    ensures
        next.parent_id == parent,
        alike_but_for_parent(cur, next),
        model::to_set_parent(issues, cur.id, parent) matches Ok(ChangeModel::Unchanged(_))
            <==> cur.parent_id == parent,
{
    lemma_the_issue(issues, cur);
    if let Some(p) = parent {
        lemma_the_issue(issues, cur);
    }
    assert(issue::same_tags(cur.tags, next.tags));
}

/// An Issue may be made part of another unless one of these holds: either is not
/// there; the two are one; the other is itself a part; the Issue has parts of its
/// own; or the other is Done and the Issue is still to be dealt with. It may
/// always be made part of nothing.
pub proof fn a_move_is_refused_only_for_the_family_rules(
    issues: Seq<IssueModel>,
    cur: IssueModel,
    parent: IssueId,
)
    requires
        laws::distinct_ids(issues),
        issues.contains(cur),
    ensures
        model::to_set_parent(issues, cur.id, None) is Ok,
        model::to_set_parent(issues, cur.id, Some(parent)) is Ok <==> {
            &&& parent != cur.id
            &&& exists|h: IssueModel| #[trigger]
                issues.contains(h) && h.id == parent && h.parent_id is None && !(h.status
                    == Status::Done && is_open_work(cur))
            &&& forall|c: IssueModel| #[trigger]
                issues.contains(c) ==> c.parent_id != Some(cur.id)
        },
        model::to_set_parent(issues, cur.id, Some(parent)) matches Err(err) ==> match err {
            WriteErrorModel::NotFound(id) => id == parent && forall|h: IssueModel| #[trigger]
                issues.contains(h) ==> h.id != parent,
            WriteErrorModel::Refused(Refused::SelfParent) => parent == cur.id,
            WriteErrorModel::Refused(Refused::ParentIsSubIssue(id)) => id == parent && exists|
                h: IssueModel,
            | #[trigger] issues.contains(h) && h.id == parent && h.parent_id is Some,
            WriteErrorModel::Refused(Refused::ParentAlreadyDone(id)) => id == parent
                && is_open_work(cur) && exists|h: IssueModel| #[trigger]
                issues.contains(h) && h.id == parent && h.status == Status::Done,
            WriteErrorModel::Refused(Refused::ChildHasSubIssues(id)) => id == cur.id && exists|
                c: IssueModel,
            | #[trigger] issues.contains(c) && c.parent_id == Some(cur.id),
            _ => false,
        },
        forall|child: IssueId, under: Option<IssueId>|
            (forall|a: IssueModel| #[trigger] issues.contains(a) ==> a.id != child)
                ==> #[trigger] model::to_set_parent(issues, child, under) == Err::<
                ChangeModel,
                WriteErrorModel,
            >(WriteErrorModel::NotFound(child)),
{
    lemma_the_issue(issues, cur);
    laws::lemma_place(issues, cur.id);
    laws::an_issue_is_found_by_its_id(issues, parent);
    let parts = model::parts(issues, cur.id);
    laws::lemma_filter_contents(issues, |i: IssueModel| i.parent_id == Some(cur.id));
    if parts.len() > 0 {
        assert(parts.contains(parts[0]));
        assert(issues.contains(parts[0]) && parts[0].parent_id == Some(cur.id));
    } else {
        assert forall|c: IssueModel| #[trigger] issues.contains(c) implies c.parent_id != Some(
            cur.id,
        ) by {
            if c.parent_id == Some(cur.id) {
                assert(parts.contains(c));
            }
        }
    }
    if let Some(h) = model::found(issues, parent) {
        assert(issues.contains(h) && h.id == parent);
    }
    assert forall|child: IssueId, under: Option<IssueId>|
        (forall|a: IssueModel| #[trigger] issues.contains(a) ==> a.id != child)
            implies #[trigger] model::to_set_parent(issues, child, under) == Err::<
        ChangeModel,
        WriteErrorModel,
    >(WriteErrorModel::NotFound(child)) by {
        laws::an_issue_is_found_by_its_id(issues, child);
    }
}

// ---------------------------------------------------------------------------
// Filing
// ---------------------------------------------------------------------------

/// What a new Issue holds: the title, what is named beside it and otherwise
/// nothing, Todo and no Priority; the id and the moment the database gave it,
/// for both its stamps; and the parent it was filed under.
pub proof fn a_new_issue_holds_what_it_was_filed_with(
    issues: Seq<IssueModel>,
    title: Seq<char>,
    rest: PatchModel,
    parent: Option<IssueId>,
    id: IssueId,
    at: Timestamp,
)
    requires
        model::to_create(issues, title, rest, parent) is Ok,
    ensures
        ({
            let new = model::stamped(
                model::to_create(issues, title, rest, parent)->Ok_0,
                id,
                at,
            );
            &&& new.id == id
            &&& new.created_at == at
            &&& new.updated_at == at
            &&& new.parent_id == parent
            &&& rest.title is None ==> new.title == title
            &&& rest.title matches Some(other) ==> new.title == other
            &&& rest.body matches Some(body) ==> new.body == body
            &&& rest.body is None ==> new.body.len() == 0
            &&& rest.status matches Some(status) ==> new.status == status
            &&& rest.status is None ==> new.status == Status::Todo
            &&& rest.priority matches Some(priority) ==> new.priority == priority
            &&& rest.priority is None ==> new.priority == Priority::Unset
            &&& rest.size matches Some(size) ==> new.size == size
            &&& rest.size is None ==> new.size is None
            &&& rest.tags is None ==> new.tags.len() == 0
            &&& rest.tags is Some ==> {
                &&& no_key_twice(new.tags)
                &&& forall|i: int|
                    0 <= i < rest.tags->0.len() ==> holds_key(
                        new.tags,
                        text::lowercased(#[trigger] rest.tags->0[i]),
                    )
                &&& forall|k: int|
                    0 <= k < new.tags.len() ==> holds_key(
                        rest.tags->0,
                        text::lowercased(#[trigger] new.tags[k]),
                    )
                &&& forall|k: int|
                    0 <= k < new.tags.len() ==> if carried_somewhere(
                        issues,
                        text::lowercased(#[trigger] new.tags[k]),
                    ) {
                        spelled_somewhere(issues, new.tags[k])
                    } else {
                        rest.tags->0.contains(new.tags[k])
                    }
            }
        }),
{
    if rest.tags is Some {
        lemma_normalised(issues, rest.tags->0);
    }
}

/// An Issue may be filed under no other, always; and under another unless that
/// is not there, is itself a part, or is Done while the new one is still to be
/// dealt with.
pub proof fn filing_is_refused_only_for_its_parent(
    issues: Seq<IssueModel>,
    title: Seq<char>,
    rest: PatchModel,
    parent: IssueId,
)
    requires
        laws::distinct_ids(issues),
    ensures
        model::to_create(issues, title, rest, None) is Ok,
        model::to_create(issues, title, rest, Some(parent)) is Ok <==> exists|h: IssueModel|
         #[trigger]
            issues.contains(h) && h.id == parent && h.parent_id is None && (h.status
                == Status::Done ==> rest.status == Some(Status::Done) || rest.status == Some(
                Status::Cancelled,
            )),
        model::to_create(issues, title, rest, Some(parent)) matches Err(err) ==> match err {
            WriteErrorModel::NotFound(id) => id == parent && forall|h: IssueModel| #[trigger]
                issues.contains(h) ==> h.id != parent,
            WriteErrorModel::Refused(Refused::ParentIsSubIssue(id)) => id == parent && exists|
                h: IssueModel,
            | #[trigger] issues.contains(h) && h.id == parent && h.parent_id is Some,
            WriteErrorModel::Refused(Refused::ParentAlreadyDone(id)) => id == parent && exists|
                h: IssueModel,
            | #[trigger] issues.contains(h) && h.id == parent && h.status == Status::Done,
            _ => false,
        },
{
    laws::an_issue_is_found_by_its_id(issues, parent);
    if let Some(h) = model::found(issues, parent) {
        assert(issues.contains(h) && h.id == parent);
    }
}

/// An Issue may be erased exactly if it is there.
pub proof fn what_is_there_may_be_erased(issues: Seq<IssueModel>, id: IssueId)
    requires
        laws::distinct_ids(issues),
    ensures
        model::why_not_delete(issues, id) is None <==> exists|a: IssueModel| #[trigger]
            issues.contains(a) && a.id == id,
        model::why_not_delete(issues, id) is Some ==> model::why_not_delete(issues, id) == Some(
            WriteErrorModel::NotFound(id),
        ),
{
    laws::an_issue_is_found_by_its_id(issues, id);
}

// ---------------------------------------------------------------------------
// Families
// ---------------------------------------------------------------------------

/// The parts of an Issue are all those that name it as their parent, and no
/// others, in the order they stand in.
pub proof fn the_parts_are_those_that_name_the_issue(issues: Seq<IssueModel>, id: IssueId)
    ensures
        forall|a: IssueModel| #[trigger]
            model::parts(issues, id).contains(a) <==> issues.contains(a) && a.parent_id == Some(id),
        laws::distinct_ids(issues) ==> laws::distinct_ids(model::parts(issues, id)),
        issue::in_display_order(issues) ==> issue::in_display_order(model::parts(issues, id)),
{
    let pass = |i: IssueModel| i.parent_id == Some(id);
    laws::lemma_filter_contents(issues, pass);
    if laws::distinct_ids(issues) {
        laws::lemma_filter_distinct(issues, pass);
    }
    if issue::in_display_order(issues) {
        crate::projection::lemma_filtering_keeps_order(issues, pass);
    }
}

/// Progress counts the parts, and among them those that are Done or Cancelled:
/// one more part is one more in all, and one more settled exactly if it is one of
/// these. Without parts there is none.
pub proof fn progress_counts_the_parts(parts: Seq<IssueModel>, more: IssueModel)
    ensures
        model::progress(Seq::<IssueModel>::empty()) is None,
        ({
            let before = match model::progress(parts) {
                Some(pair) => pair,
                None => (0, 0),
            };
            let one: nat = if more.status == Status::Done || more.status == Status::Cancelled {
                1
            } else {
                0
            };
            model::progress(parts.push(more)) == Some((before.0 + one, before.1 + 1))
        }),
{
    reveal(Seq::filter);
    assert(parts.push(more).drop_last() =~= parts);
    if parts.len() == 0 {
        assert(model::settled_of(parts).len() == 0);
    }
}

// ---------------------------------------------------------------------------
// Counting Tags
// ---------------------------------------------------------------------------

/// The Issues counted for a Tag are all those that carry it, however spelled,
/// and no others.
pub proof fn a_tag_counts_what_carries_it(issues: Seq<IssueModel>, name: Seq<char>)
    ensures
        forall|a: IssueModel| #[trigger]
            model::with_tag(issues, name).contains(a) <==> issues.contains(a) && holds_key(
                a.tags,
                text::lowercased(name),
            ),
        laws::distinct_ids(issues) ==> laws::distinct_ids(model::with_tag(issues, name)),
{
    let pass = |i: IssueModel| tag::has_tag(i.tags, name);
    laws::lemma_filter_contents(issues, pass);
    assert forall|a: IssueModel| #[trigger]
        model::with_tag(issues, name).contains(a) <==> issues.contains(a) && holds_key(
            a.tags,
            text::lowercased(name),
        ) by {
        lemma_holds_key(a.tags, name);
    }
    if laws::distinct_ids(issues) {
        laws::lemma_filter_distinct(issues, pass);
    }
}

// ---------------------------------------------------------------------------
// Reasons
// ---------------------------------------------------------------------------

/// What a refusal says: which rule, and which Issue or how many stand in the way.
pub proof fn a_refusal_says_what_stands_in_the_way(id: IssueId, count: usize, kind: Seq<char>)
    ensures
        Refused::SelfParent.sentence() == "an issue cannot be its own parent"@,
        Refused::ParentIsSubIssue(id).sentence() == "#"@ + text::decimal(id as int)
            + " is itself a sub-issue, and sub-issues cannot have sub-issues"@,
        Refused::ChildHasSubIssues(id).sentence() == "#"@ + text::decimal(id as int)
            + " has sub-issues of its own, and sub-issues cannot have sub-issues"@,
        Refused::ParentAlreadyDone(id).sentence() == "#"@ + text::decimal(id as int)
            + " is Done and cannot take on outstanding work"@,
        Refused::SubIssuesOutstanding(count).sentence() == text::decimal(count as int)
            + " sub-issue(s) are still outstanding"@,
        Refused::ParentIsDone(id).sentence() == "its parent #"@ + text::decimal(id as int)
            + " is Done; reopen that first"@,
        WriteErrorModel::NotFound(id).sentence() == "no issue #"@ + text::decimal(id as int),
        WriteErrorModel::Store(kind).sentence() == kind,
        WriteErrorModel::Refused(Refused::SelfParent).sentence() == Refused::SelfParent.sentence(),
{
}

} // verus!
