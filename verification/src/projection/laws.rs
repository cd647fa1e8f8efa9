//! What every change to the Issues keeps.

use vstd::prelude::*;

use crate::domain::issue;
use crate::domain::issue::IssueModel;
use crate::domain::kinds::{IssueId, Status};
use crate::domain::tag;
use crate::projection::model;
use crate::projection::model::ChangeModel;
use crate::projection::{PatchModel, WriteErrorModel};
use crate::text;
use crate::time::Timestamp;

verus! {

// ---------------------------------------------------------------------------
// The invariants
// ---------------------------------------------------------------------------

/// No two Issues share an id.
pub open spec fn distinct_ids(issues: Seq<IssueModel>) -> bool {
    forall|i: int, j: int|
        0 <= i < j < issues.len() ==> (#[trigger] issues[i]).id != (#[trigger] issues[j]).id
}

/// Whether this is an Issue that can hold parts, with this id.
pub open spec fn is_holder(issues: Seq<IssueModel>, p: IssueModel, id: IssueId) -> bool {
    issues.contains(p) && p.id == id && p.parent_id is None
}

/// Hierarchy is one level deep: what an Issue is part of is there, and is
/// itself part of nothing.
pub open spec fn one_level(issues: Seq<IssueModel>) -> bool {
    forall|a: IssueModel| #[trigger]
        issues.contains(a) && a.parent_id is Some ==> exists|p: IssueModel|
            is_holder(issues, p, a.parent_id->0)
}

/// No Done Issue holds work that is outstanding.
pub open spec fn done_means_done(issues: Seq<IssueModel>) -> bool {
    forall|a: IssueModel, p: IssueModel| #[trigger]
        issues.contains(a) && #[trigger] issues.contains(p) && a.parent_id == Some(p.id) && p.status
            == Status::Done ==> a.status.settled()
}

/// No Issue that is part of another has parts of its own.
pub open spec fn no_second_level(issues: Seq<IssueModel>) -> bool {
    forall|a: IssueModel, p: IssueModel| #[trigger]
        issues.contains(a) && #[trigger] issues.contains(p) && a.parent_id == Some(p.id)
            ==> p.parent_id is None
}

/// The two rules of families: there is no second level, and no Done Issue holds
/// work that is outstanding. An id is no one's but one Issue's.
pub open spec fn family_rules(issues: Seq<IssueModel>) -> bool {
    &&& distinct_ids(issues)
    &&& no_second_level(issues)
    &&& done_means_done(issues)
}

/// Families as the database keeps them: what an Issue is part of is there, and
/// both rules hold.
pub open spec fn families_stand(issues: Seq<IssueModel>) -> bool {
    &&& distinct_ids(issues)
    &&& one_level(issues)
    &&& done_means_done(issues)
}

/// Every Issue's Tags are in key order, no Tag twice.
pub open spec fn tidy_tags(issues: Seq<IssueModel>) -> bool {
    forall|a: IssueModel| #[trigger] issues.contains(a) ==> tag::in_key_order(a.tags)
}

/// A Tag is spelled the same way wherever it is carried.
pub open spec fn one_spelling(issues: Seq<IssueModel>) -> bool {
    forall|a: IssueModel, b: IssueModel, x: Seq<char>, y: Seq<char>|
        #![trigger issues.contains(a), issues.contains(b), a.tags.contains(x), b.tags.contains(y)]
        issues.contains(a) && issues.contains(b) && a.tags.contains(x) && b.tags.contains(y)
            && tag::key_of(x) == tag::key_of(y) ==> x == y
}

/// What always holds of the Issues.
pub open spec fn sound(issues: Seq<IssueModel>) -> bool {
    &&& families_stand(issues)
    &&& tidy_tags(issues)
    &&& one_spelling(issues)
}

// ---------------------------------------------------------------------------
// Contents
// ---------------------------------------------------------------------------

/// The place of an id is that of an Issue with it, where there is one.
pub proof fn lemma_place(issues: Seq<IssueModel>, id: IssueId)
    ensures
        match model::place_of(issues, id) {
            Some(place) => 0 <= place < issues.len() && issues[place].id == id,
            None => forall|k: int| 0 <= k < issues.len() ==> (#[trigger] issues[k]).id != id,
        },
    decreases issues.len(),
{
    if issues.len() > 0 {
        lemma_place(issues.drop_last(), id);
        if model::place_of(issues, id) is None {
            assert forall|k: int| 0 <= k < issues.len() implies (#[trigger] issues[k]).id != id by {
                if k < issues.len() - 1 {
                    assert(issues.drop_last()[k] == issues[k]);
                }
            }
        }
    }
}

/// Where ids are distinct, an Issue is found exactly if it is there.
pub proof fn an_issue_is_found_by_its_id(issues: Seq<IssueModel>, id: IssueId)
    requires
        distinct_ids(issues),
    ensures
        match model::found(issues, id) {
            Some(x) => issues.contains(x) && x.id == id && forall|a: IssueModel| #[trigger]
                issues.contains(a) && a.id == id ==> a == x,
            None => forall|a: IssueModel| #[trigger] issues.contains(a) ==> a.id != id,
        },
{
    lemma_place(issues, id);
    match model::place_of(issues, id) {
        Some(place) => {
            assert(issues.contains(issues[place]));
            assert forall|a: IssueModel| #[trigger]
                issues.contains(a) && a.id == id implies a == issues[place] by {
                let k = choose|k: int| 0 <= k < issues.len() && issues[k] == a;
                if k < place {
                    assert(issues[k].id != issues[place].id);
                } else if place < k {
                    assert(issues[place].id != issues[k].id);
                }
            }
        },
        None => {
            assert forall|a: IssueModel| #[trigger] issues.contains(a) implies a.id != id by {
                let k = choose|k: int| 0 <= k < issues.len() && issues[k] == a;
                assert(issues[k].id != id);
            }
        },
    }
}

proof fn lemma_placed_contents(issues: Seq<IssueModel>, issue: IssueModel)
    ensures
        forall|a: IssueModel| #[trigger]
            issue::placed(issues, issue).contains(a) <==> issues.contains(a) || a == issue,
        distinct_ids(issues.push(issue)) ==> distinct_ids(issue::placed(issues, issue)),
    decreases issues.len(),
{
    let out = issue::placed(issues, issue);
    if issues.len() == 0 || !issue::shown_before(issue, issues.last()) {
        lemma_push_contents(issues, issue);
    } else {
        let rest = issues.drop_last();
        let last = issues.last();
        lemma_placed_contents(rest, issue);
        let head = issue::placed(rest, issue);
        lemma_push_contents(head, last);
        lemma_push_contents(rest, last);
        assert(rest.push(last) =~= issues);
        if distinct_ids(issues.push(issue)) {
            let whole = issues.push(issue);
            let short = rest.push(issue);
            assert forall|i: int, j: int| 0 <= i < j < short.len() implies (
            #[trigger] short[i]).id != (#[trigger] short[j]).id by {
                assert(short[i] == whole[i]);
                assert(short[j] == whole[if j == rest.len() { issues.len() as int } else { j }]);
            }
            assert forall|i: int, j: int| 0 <= i < j < out.len() implies (#[trigger] out[i]).id != (
            #[trigger] out[j]).id by {
                assert(out[i] == head[i]);
                if j < head.len() {
                    assert(out[j] == head[j]);
                } else {
                    assert(out[j] == last);
                    assert(head.contains(head[i]));
                    if rest.contains(head[i]) {
                        let k = choose|k: int| 0 <= k < rest.len() && rest[k] == head[i];
                        assert(whole[k] == head[i]);
                        assert(whole[issues.len() - 1] == last);
                    } else {
                        assert(whole[issues.len() as int] == head[i]);
                        assert(whole[issues.len() - 1] == last);
                    }
                }
            }
        }
    }
}

proof fn lemma_push_contents(issues: Seq<IssueModel>, issue: IssueModel)
    ensures
        forall|a: IssueModel| #[trigger]
            issues.push(issue).contains(a) <==> issues.contains(a) || a == issue,
{
    let out = issues.push(issue);
    assert forall|a: IssueModel| issues.contains(a) || a == issue implies #[trigger] out.contains(
        a,
    ) by {
        if issues.contains(a) {
            let k = choose|k: int| 0 <= k < issues.len() && issues[k] == a;
            assert(out[k] == a);
        } else {
            assert(out[issues.len() as int] == a);
        }
    }
    assert forall|a: IssueModel| #[trigger] out.contains(a) implies issues.contains(a) || a
        == issue by {
        let k = choose|k: int| 0 <= k < out.len() && out[k] == a;
        if k < issues.len() {
            assert(issues[k] == a);
        }
    }
}

pub(crate) proof fn lemma_displayed_contents(issues: Seq<IssueModel>)
    ensures
        forall|a: IssueModel| #[trigger]
            issue::displayed(issues).contains(a) <==> issues.contains(a),
        distinct_ids(issues) ==> distinct_ids(issue::displayed(issues)),
    decreases issues.len(),
{
    if issues.len() > 0 {
        let rest = issues.drop_last();
        let last = issues.last();
        lemma_displayed_contents(rest);
        lemma_placed_contents(issue::displayed(rest), last);
        lemma_push_contents(rest, last);
        assert(rest.push(last) =~= issues);
        if distinct_ids(issues) {
            assert forall|i: int, j: int| 0 <= i < j < rest.len() implies (#[trigger] rest[i]).id
                != (#[trigger] rest[j]).id by {
                assert(rest[i] == issues[i] && rest[j] == issues[j]);
            }
            let all = issue::displayed(rest).push(last);
            assert forall|i: int, j: int| 0 <= i < j < all.len() implies (#[trigger] all[i]).id != (
            #[trigger] all[j]).id by {
                if j < all.len() - 1 {
                    assert(all[i] == issue::displayed(rest)[i]);
                    assert(all[j] == issue::displayed(rest)[j]);
                } else {
                    assert(issue::displayed(rest).contains(all[i]));
                    let k = choose|k: int| 0 <= k < rest.len() && rest[k] == all[i];
                    assert(issues[k] == all[i] && issues[issues.len() - 1] == all[j]);
                }
            }
        }
    } else {
        assert(issue::displayed(issues) =~= issues);
    }
}

/// What the Issues are once a new version of one has been stored: that version,
/// and every other Issue as it was.
pub proof fn an_update_replaces_one_issue(issues: Seq<IssueModel>, next: IssueModel)
    requires
        distinct_ids(issues),
        model::found(issues, next.id) is Some,
    ensures
        distinct_ids(model::after_update(issues, next)),
        forall|a: IssueModel| #[trigger]
            model::after_update(issues, next).contains(a) <==> a == next || (issues.contains(a)
                && a.id != next.id),
{
    lemma_place(issues, next.id);
    let place = model::place_of(issues, next.id)->0;
    let raw = issues.update(place, next);
    lemma_displayed_contents(raw);
    assert forall|i: int, j: int| 0 <= i < j < raw.len() implies (#[trigger] raw[i]).id != (
    #[trigger] raw[j]).id by {
        assert(issues[i].id != issues[j].id);
    }
    assert forall|a: IssueModel| #[trigger] raw.contains(a) <==> a == next || (issues.contains(a)
        && a.id != next.id) by {
        if raw.contains(a) {
            let k = choose|k: int| 0 <= k < raw.len() && raw[k] == a;
            if k != place {
                assert(issues[k] == a);
                if k < place {
                    assert(issues[k].id != issues[place].id);
                } else {
                    assert(issues[place].id != issues[k].id);
                }
            }
        }
        if a == next {
            assert(raw[place] == a);
        } else if issues.contains(a) && a.id != next.id {
            let k = choose|k: int| 0 <= k < issues.len() && issues[k] == a;
            assert(raw[k] == a);
        }
    }
}

/// What the Issues are once one more has been stored: that one, and every other
/// as it was.
pub proof fn an_insert_adds_one_issue(issues: Seq<IssueModel>, new: IssueModel)
    requires
        distinct_ids(issues),
        model::found(issues, new.id) is None,
    ensures
        distinct_ids(model::after_insert(issues, new)),
        forall|a: IssueModel| #[trigger]
            model::after_insert(issues, new).contains(a) <==> a == new || issues.contains(a),
{
    let raw = issues.push(new);
    lemma_place(issues, new.id);
    lemma_push_contents(issues, new);
    lemma_displayed_contents(raw);
    assert forall|i: int, j: int| 0 <= i < j < raw.len() implies (#[trigger] raw[i]).id != (
    #[trigger] raw[j]).id by {
        assert(raw[i] == issues[i]);
        if j < issues.len() {
            assert(raw[j] == issues[j]);
        }
    }
}

/// A filtered sequence holds what passes, and nothing else.
pub proof fn lemma_filter_contents<A>(all: Seq<A>, pass: spec_fn(A) -> bool)
    ensures
        forall|a: A| #[trigger] all.filter(pass).contains(a) <==> all.contains(a) && pass(a),
    decreases all.len(),
{
    reveal(Seq::filter);
    if all.len() > 0 {
        let rest = all.drop_last();
        lemma_filter_contents(rest, pass);
        let out = all.filter(pass);
        let head = rest.filter(pass);
        assert forall|a: A| #[trigger] out.contains(a) <==> all.contains(a) && pass(a) by {
            if out.contains(a) {
                let k = choose|k: int| 0 <= k < out.len() && out[k] == a;
                if k < head.len() {
                    assert(head[k] == a);
                    assert(head.contains(a));
                    let m = choose|m: int| 0 <= m < rest.len() && rest[m] == a;
                    assert(all[m] == a);
                } else {
                    assert(all[all.len() - 1] == a);
                }
            }
            if all.contains(a) && pass(a) {
                let k = choose|k: int| 0 <= k < all.len() && all[k] == a;
                if k < all.len() - 1 {
                    assert(rest[k] == a);
                    assert(rest.contains(a));
                    assert(head.contains(a));
                    let m = choose|m: int| 0 <= m < head.len() && head[m] == a;
                    assert(out[m] == a);
                } else {
                    assert(out[out.len() - 1] == a);
                }
            }
        }
    }
}

pub(crate) proof fn lemma_filter_distinct(issues: Seq<IssueModel>, pass: spec_fn(IssueModel) -> bool)
    requires
        distinct_ids(issues),
    ensures
        distinct_ids(issues.filter(pass)),
    decreases issues.len(),
{
    reveal(Seq::filter);
    if issues.len() > 0 {
        let rest = issues.drop_last();
        assert forall|i: int, j: int| 0 <= i < j < rest.len() implies (#[trigger] rest[i]).id != (
        #[trigger] rest[j]).id by {
            assert(rest[i] == issues[i] && rest[j] == issues[j]);
        }
        lemma_filter_distinct(rest, pass);
        lemma_filter_contents(rest, pass);
        let out = issues.filter(pass);
        let head = rest.filter(pass);
        assert forall|i: int, j: int| 0 <= i < j < out.len() implies (#[trigger] out[i]).id != (
        #[trigger] out[j]).id by {
            assert(out[i] == head[i]);
            if j < head.len() {
                assert(out[j] == head[j]);
            } else {
                assert(head.contains(head[i]));
                let k = choose|k: int| 0 <= k < rest.len() && rest[k] == head[i];
                assert(issues[k] == out[i] && issues[issues.len() - 1] == out[j]);
            }
        }
    }
}

/// What the Issues are once one has been erased: every other, those that were
/// part of it now part of nothing and otherwise as they were.
pub proof fn an_erasure_orphans_the_parts(issues: Seq<IssueModel>, id: IssueId)
    requires
        distinct_ids(issues),
    ensures
        distinct_ids(model::after_delete(issues, id)),
        forall|a: IssueModel|
            #![trigger issues.contains(a)]
            issues.contains(a) && a.id != id ==> model::after_delete(issues, id).contains(
                model::orphaned(a, id),
            ),
        forall|b: IssueModel| #[trigger]
            model::after_delete(issues, id).contains(b) ==> exists|a: IssueModel|
                #![trigger issues.contains(a)]
                issues.contains(a) && a.id != id && b == model::orphaned(a, id),
{
    let pass = |i: IssueModel| i.id != id;
    let kept = issues.filter(pass);
    let out = model::after_delete(issues, id);
    lemma_filter_contents(issues, pass);
    lemma_filter_distinct(issues, pass);
    assert forall|i: int, j: int| 0 <= i < j < out.len() implies (#[trigger] out[i]).id != (
    #[trigger] out[j]).id by {
        assert(kept[i].id != kept[j].id);
    }
    assert forall|a: IssueModel| issues.contains(a) && a.id != id implies #[trigger] out.contains(
        model::orphaned(a, id),
    ) by {
        assert(kept.contains(a));
        let k = choose|k: int| 0 <= k < kept.len() && kept[k] == a;
        assert(out[k] == model::orphaned(a, id));
    }
    assert forall|b: IssueModel| #[trigger] out.contains(b) implies exists|a: IssueModel|
        #![trigger issues.contains(a)]
        issues.contains(a) && a.id != id && b == model::orphaned(a, id) by {
        let k = choose|k: int| 0 <= k < out.len() && out[k] == b;
        assert(kept.contains(kept[k]));
        assert(issues.contains(kept[k]));
    }
}

// ---------------------------------------------------------------------------
// Tags
// ---------------------------------------------------------------------------

proof fn lemma_all_names(issues: Seq<IssueModel>)
    ensures
        forall|x: Seq<char>| #[trigger]
            model::all_names(issues).contains(x) ==> exists|a: IssueModel| #[trigger]
                issues.contains(a) && a.tags.contains(x),
        forall|a: IssueModel, x: Seq<char>| #[trigger]
            issues.contains(a) && #[trigger] a.tags.contains(x) ==> model::all_names(
                issues,
            ).contains(x),
    decreases issues.len(),
{
    if issues.len() > 0 {
        let rest = issues.drop_last();
        let last = issues.last();
        lemma_all_names(rest);
        let names = model::all_names(issues);
        let head = model::all_names(rest);
        assert forall|x: Seq<char>| #[trigger] names.contains(x) implies exists|a: IssueModel|
         #[trigger] issues.contains(a) && a.tags.contains(x) by {
            let k = choose|k: int| 0 <= k < names.len() && names[k] == x;
            if k < head.len() {
                assert(head[k] == x);
                assert(head.contains(x));
                let a = choose|a: IssueModel| #[trigger] rest.contains(a) && a.tags.contains(x);
                let m = choose|m: int| 0 <= m < rest.len() && rest[m] == a;
                assert(issues[m] == a);
                assert(issues.contains(a));
            } else {
                assert(last.tags[k - head.len()] == x);
                assert(issues[issues.len() - 1] == last);
                assert(issues.contains(last) && last.tags.contains(x));
            }
        }
        assert forall|a: IssueModel, x: Seq<char>| #[trigger]
            issues.contains(a) && #[trigger] a.tags.contains(x) implies names.contains(x) by {
            let m = choose|m: int| 0 <= m < issues.len() && issues[m] == a;
            if m < issues.len() - 1 {
                assert(rest[m] == a);
                assert(rest.contains(a));
                assert(head.contains(x));
                let k = choose|k: int| 0 <= k < head.len() && head[k] == x;
                assert(names[k] == x);
            } else {
                let k = choose|k: int| 0 <= k < last.tags.len() && last.tags[k] == x;
                assert(names[head.len() + k] == x);
            }
        }
    }
}

/// The Tags in use are exactly those some Issue carries, each in a spelling
/// that is carried.
pub proof fn tags_are_derived_from_use(issues: Seq<IssueModel>)
    ensures
        tag::in_key_order(model::vocabulary(issues)),
        forall|x: Seq<char>| #[trigger]
            model::vocabulary(issues).contains(x) ==> exists|a: IssueModel| #[trigger]
                issues.contains(a) && a.tags.contains(x),
        forall|a: IssueModel, x: Seq<char>| #[trigger]
            issues.contains(a) && #[trigger] a.tags.contains(x) ==> tag::has_tag(
                model::vocabulary(issues),
                x,
            ),
{
    lemma_all_names(issues);
    let names = model::all_names(issues);
    tag::collecting_keeps_every_tag(names);
    assert forall|a: IssueModel, x: Seq<char>| #[trigger]
        issues.contains(a) && #[trigger] a.tags.contains(x) implies tag::has_tag(
        model::vocabulary(issues),
        x,
    ) by {
        assert(names.contains(x));
        let k = choose|k: int| 0 <= k < names.len() && names[k] == x;
        assert(tag::has_tag(model::vocabulary(issues), names[k]));
    }
}

proof fn lemma_normalised_spelling(issues: Seq<IssueModel>, candidates: Seq<Seq<char>>)
    requires
        one_spelling(issues),
    ensures
        forall|b: IssueModel, x: Seq<char>, y: Seq<char>|
            #![trigger issues.contains(b), tag::normalised(candidates, model::vocabulary(issues))
                .contains(x), b.tags.contains(y)]
            issues.contains(b) && tag::normalised(
                candidates,
                model::vocabulary(issues),
            ).contains(x) && b.tags.contains(y) && tag::key_of(x) == tag::key_of(y) ==> x == y,
{
    let words = model::vocabulary(issues);
    let out = tag::normalised(candidates, words);
    tags_are_derived_from_use(issues);
    tag::normalising_keeps_every_tag(candidates, words);
    assert forall|b: IssueModel, x: Seq<char>, y: Seq<char>|
        #![trigger issues.contains(b), out.contains(x), b.tags.contains(y)]
        issues.contains(b) && out.contains(x) && b.tags.contains(y) && tag::key_of(x)
            == tag::key_of(y) implies x == y by {
        let i = choose|i: int|
            0 <= i < candidates.len() && x == tag::canonical(#[trigger] candidates[i], words);
        tag::a_settled_spelling_has_its_key(candidates[i], words);
        assert(tag::has_tag(words, y));
        assert(tag::key_of(candidates[i]) == tag::key_of(y));
        let k = choose|k: int| 0 <= k < words.len() && tag::key_of(#[trigger] words[k])
            == tag::key_of(y);
        assert(tag::key_of(words[k]) == tag::key_of(candidates[i]));
        assert(tag::has_tag(words, candidates[i]));
        assert(words.contains(x));
        let a = choose|a: IssueModel| #[trigger] issues.contains(a) && a.tags.contains(x);
    }
}

// ---------------------------------------------------------------------------
// Keeping the invariants
// ---------------------------------------------------------------------------

/// What a new version of an Issue must not do to the rules of families.
spec fn fits_the_rules(issues: Seq<IssueModel>, next: IssueModel) -> bool {
    &&& next.parent_id != Some(next.id)
    &&& forall|a: IssueModel| #[trigger]
        issues.contains(a) && a.id != next.id && a.parent_id == Some(next.id) ==> next.parent_id
            is None && (next.status == Status::Done ==> a.status.settled())
    &&& forall|p: IssueModel| #[trigger]
        issues.contains(p) && p.id != next.id && next.parent_id == Some(p.id) ==> p.parent_id
            is None && (p.status == Status::Done ==> next.status.settled())
}

/// What a new version of an Issue must not do to what others are part of, and
/// what it is itself part of.
spec fn fits_a_holder(issues: Seq<IssueModel>, next: IssueModel) -> bool {
    &&& next.parent_id is Some ==> (exists|p: IssueModel|
        is_holder(issues, p, next.parent_id->0) && p.id != next.id)
    &&& next.parent_id is Some ==> forall|a: IssueModel| #[trigger]
        issues.contains(a) ==> a.parent_id != Some(next.id)
}

/// What a new version of an Issue must not do to the Tags.
spec fn fits_the_tags(issues: Seq<IssueModel>, next: IssueModel) -> bool {
    &&& tag::in_key_order(next.tags)
    &&& forall|b: IssueModel, x: Seq<char>, y: Seq<char>|
        #![trigger issues.contains(b), next.tags.contains(x), b.tags.contains(y)]
        issues.contains(b) && b.id != next.id && next.tags.contains(x) && b.tags.contains(y)
            && tag::key_of(x) == tag::key_of(y) ==> x == y
}

proof fn lemma_one_list_spells_once(names: Seq<Seq<char>>, x: Seq<char>, y: Seq<char>)
    requires
        tag::in_key_order(names),
        names.contains(x),
        names.contains(y),
        tag::key_of(x) == tag::key_of(y),
    ensures
        x == y,
{
    let i = choose|i: int| 0 <= i < names.len() && names[i] == x;
    let j = choose|j: int| 0 <= j < names.len() && names[j] == y;
    if i < j {
        assert(text::precedes(tag::key_of(names[i]), tag::key_of(names[j])));
        text::the_order_of_texts_is_total(tag::key_of(x), tag::key_of(y));
    } else if j < i {
        assert(text::precedes(tag::key_of(names[j]), tag::key_of(names[i])));
        text::the_order_of_texts_is_total(tag::key_of(x), tag::key_of(y));
    }
}

/// Whether some Issues are others with one among them, in place of whatever had
/// its id.
spec fn is_with(out: Seq<IssueModel>, issues: Seq<IssueModel>, next: IssueModel) -> bool {
    forall|a: IssueModel| #[trigger]
        out.contains(a) <==> a == next || (issues.contains(a) && a.id != next.id)
}

proof fn lemma_with_keeps_the_rules(
    out: Seq<IssueModel>,
    issues: Seq<IssueModel>,
    next: IssueModel,
)
    requires
        no_second_level(issues),
        done_means_done(issues),
        is_with(out, issues, next),
        fits_the_rules(issues, next),
    ensures
        no_second_level(out),
        done_means_done(out),
{
    assert forall|a: IssueModel, p: IssueModel| #[trigger]
        out.contains(a) && #[trigger] out.contains(p) && a.parent_id == Some(
        p.id,
    ) implies p.parent_id is None && (p.status == Status::Done ==> a.status.settled()) by {
        if a != next {
            assert(issues.contains(a));
        }
        if p != next {
            assert(issues.contains(p));
        }
    }
}

proof fn lemma_with_keeps_the_holders(
    out: Seq<IssueModel>,
    issues: Seq<IssueModel>,
    next: IssueModel,
)
    requires
        one_level(issues),
        is_with(out, issues, next),
        fits_a_holder(issues, next),
    ensures
        one_level(out),
{
    assert forall|a: IssueModel| #[trigger]
        out.contains(a) && a.parent_id is Some implies exists|p: IssueModel|
        is_holder(out, p, a.parent_id->0) by {
        if a == next {
            let p = choose|p: IssueModel|
                is_holder(issues, p, next.parent_id->0) && p.id != next.id;
            assert(out.contains(p));
            assert(is_holder(out, p, a.parent_id->0));
        } else {
            assert(issues.contains(a));
            let p = choose|p: IssueModel| is_holder(issues, p, a.parent_id->0);
            if p.id == next.id {
                assert(next.parent_id is None);
                assert(out.contains(next));
                assert(is_holder(out, next, a.parent_id->0));
            } else {
                assert(out.contains(p));
                assert(is_holder(out, p, a.parent_id->0));
            }
        }
    }
}

proof fn lemma_with_keeps_the_tags(
    out: Seq<IssueModel>,
    issues: Seq<IssueModel>,
    next: IssueModel,
)
    requires
        tidy_tags(issues),
        one_spelling(issues),
        is_with(out, issues, next),
        fits_the_tags(issues, next),
    ensures
        tidy_tags(out),
        one_spelling(out),
{
    assert forall|a: IssueModel| #[trigger] out.contains(a) implies tag::in_key_order(a.tags) by {
        if a != next {
            assert(issues.contains(a));
        }
    }
    assert forall|a: IssueModel, b: IssueModel, x: Seq<char>, y: Seq<char>|
        #![trigger out.contains(a), out.contains(b), a.tags.contains(x), b.tags.contains(y)]
        out.contains(a) && out.contains(b) && a.tags.contains(x) && b.tags.contains(y)
            && tag::key_of(x) == tag::key_of(y) implies x == y by {
        if a == next && b == next {
            lemma_one_list_spells_once(next.tags, x, y);
        } else if a == next {
            assert(issues.contains(b));
        } else if b == next {
            assert(issues.contains(a));
        } else {
            assert(issues.contains(a) && issues.contains(b));
        }
    }
}

proof fn lemma_update_is_with(issues: Seq<IssueModel>, next: IssueModel)
    requires
        distinct_ids(issues),
        model::found(issues, next.id) is Some,
    ensures
        distinct_ids(model::after_update(issues, next)),
        is_with(model::after_update(issues, next), issues, next),
{
    an_update_replaces_one_issue(issues, next);
}

proof fn lemma_insert_is_with(issues: Seq<IssueModel>, new: IssueModel)
    requires
        distinct_ids(issues),
        model::found(issues, new.id) is None,
    ensures
        distinct_ids(model::after_insert(issues, new)),
        is_with(model::after_insert(issues, new), issues, new),
{
    an_insert_adds_one_issue(issues, new);
    an_issue_is_found_by_its_id(issues, new.id);
}

/// Where what every Issue is part of is there and part of nothing, there is no
/// second level.
pub proof fn one_level_has_no_second(issues: Seq<IssueModel>)
    requires
        distinct_ids(issues),
        one_level(issues),
    ensures
        no_second_level(issues),
{
    assert forall|a: IssueModel, p: IssueModel| #[trigger]
        issues.contains(a) && #[trigger] issues.contains(p) && a.parent_id == Some(
        p.id,
    ) implies p.parent_id is None by {
        let q = choose|q: IssueModel| is_holder(issues, q, p.id);
        an_issue_is_found_by_its_id(issues, p.id);
        assert(issues.contains(q));
    }
}

proof fn lemma_parts(issues: Seq<IssueModel>, id: IssueId)
    ensures
        model::parts(issues, id).len() == 0 ==> forall|a: IssueModel| #[trigger]
            issues.contains(a) ==> a.parent_id != Some(id),
        model::outstanding_of(model::parts(issues, id)).len() == 0 ==> forall|a: IssueModel|
         #[trigger]
            issues.contains(a) && a.parent_id == Some(id) ==> a.status.settled(),
{
    let all = model::parts(issues, id);
    lemma_filter_contents(issues, |i: IssueModel| i.parent_id == Some(id));
    lemma_filter_contents(all, |i: IssueModel| !i.status.settled());
    assert forall|a: IssueModel| #[trigger]
        issues.contains(a) && a.parent_id == Some(id) implies all.contains(a) by {}
    if model::outstanding_of(all).len() == 0 {
        assert forall|a: IssueModel| #[trigger]
            issues.contains(a) && a.parent_id == Some(id) implies a.status.settled() by {
            assert(all.contains(a));
            assert(!model::outstanding_of(all).contains(a));
        }
    }
}

/// An Issue is a parent or a part, never both: what is part of another has no
/// parts of its own, and the other is there and part of nothing.
pub proof fn an_issue_is_a_parent_or_a_part(issues: Seq<IssueModel>, cur: IssueModel)
    requires
        distinct_ids(issues),
        one_level(issues),
        issues.contains(cur),
    ensures
        cur.parent_id is Some ==> exists|p: IssueModel|
            is_holder(issues, p, cur.parent_id->0) && p.id != cur.id,
        cur.parent_id is Some ==> forall|a: IssueModel| #[trigger]
            issues.contains(a) ==> a.parent_id != Some(cur.id),
{
    an_issue_is_found_by_its_id(issues, cur.id);
    if cur.parent_id is Some {
        let p = choose|p: IssueModel| is_holder(issues, p, cur.parent_id->0);
        assert(issues.contains(p));
        assert(is_holder(issues, p, cur.parent_id->0) && p.id != cur.id);
        assert forall|a: IssueModel| #[trigger] issues.contains(a) implies a.parent_id != Some(
            cur.id,
        ) by {
            if a.parent_id == Some(cur.id) {
                let q = choose|q: IssueModel| is_holder(issues, q, cur.id);
                assert(issues.contains(q));
                assert(q == cur);
            }
        }
    }
}

proof fn lemma_patched_tags_fit(
    issues: Seq<IssueModel>,
    content: model::Content,
    patch: PatchModel,
)
    requires
        tidy_tags(issues),
        one_spelling(issues),
        patch.tags is Some,
    ensures
        ({
            let tags = model::patched(content, patch, model::vocabulary(issues)).tags;
            &&& tag::in_key_order(tags)
            &&& forall|b: IssueModel, x: Seq<char>, y: Seq<char>|
                #![trigger issues.contains(b), tags.contains(x), b.tags.contains(y)]
                issues.contains(b) && tags.contains(x) && b.tags.contains(y) && tag::key_of(x)
                    == tag::key_of(y) ==> x == y
        }),
{
    tag::normalising_keeps_every_tag(patch.tags->0, model::vocabulary(issues));
    lemma_normalised_spelling(issues, patch.tags->0);
}

// ---------------------------------------------------------------------------
// What every change keeps
// ---------------------------------------------------------------------------

/// What the Issues are once a planned change has been carried out. One that was
/// refused, or that changes nothing, leaves them as they were.
pub open spec fn carried_out(
    issues: Seq<IssueModel>,
    plan: Result<ChangeModel, WriteErrorModel>,
    at: Timestamp,
) -> Seq<IssueModel> {
    match plan {
        Ok(ChangeModel::Write(next)) => model::after_update(
            issues,
            IssueModel { updated_at: at, ..next },
        ),
        _ => issues,
    }
}

/// What the Issues are once an Issue has been filed under the id that the
/// database gave it. One that was refused leaves them as they were.
pub open spec fn filed(
    issues: Seq<IssueModel>,
    plan: Result<model::Content, WriteErrorModel>,
    id: IssueId,
    at: Timestamp,
) -> Seq<IssueModel> {
    match plan {
        Ok(content) => model::after_insert(issues, model::stamped(content, id, at)),
        Err(_) => issues,
    }
}

/// Filing an Issue keeps the rules of families, whatever the Tags are and
/// whether or not it is refused. The id is fresh: no Issue has it, and none says
/// to be part of it.
pub proof fn filing_keeps_the_family_rules(
    issues: Seq<IssueModel>,
    title: Seq<char>,
    rest: PatchModel,
    parent: Option<IssueId>,
    id: IssueId,
    at: Timestamp,
)
    requires
        family_rules(issues),
        model::found(issues, id) is None,
        forall|a: IssueModel| #[trigger] issues.contains(a) ==> a.parent_id != Some(id),
    ensures
        family_rules(filed(issues, model::to_create(issues, title, rest, parent), id, at)),
{
    if let Ok(content) = model::to_create(issues, title, rest, parent) {
        let new = model::stamped(content, id, at);
        if let Some(p) = parent {
            an_issue_is_found_by_its_id(issues, p);
        }
        lemma_insert_is_with(issues, new);
        assert(fits_the_rules(issues, new));
        lemma_with_keeps_the_rules(model::after_insert(issues, new), issues, new);
    }
}

/// Filing an Issue keeps families standing, whatever the Tags are and whether or
/// not it is refused, under whatever fresh id the database gives it.
pub proof fn filing_keeps_families(
    issues: Seq<IssueModel>,
    title: Seq<char>,
    rest: PatchModel,
    parent: Option<IssueId>,
    id: IssueId,
    at: Timestamp,
)
    requires
        families_stand(issues),
        model::found(issues, id) is None,
    ensures
        families_stand(filed(issues, model::to_create(issues, title, rest, parent), id, at)),
{
    one_level_has_no_second(issues);
    an_issue_is_found_by_its_id(issues, id);
    assert forall|a: IssueModel| #[trigger] issues.contains(a) implies a.parent_id != Some(id) by {
        if a.parent_id == Some(id) {
            let q = choose|q: IssueModel| is_holder(issues, q, id);
            assert(issues.contains(q));
        }
    }
    filing_keeps_the_family_rules(issues, title, rest, parent, id, at);
    if let Ok(content) = model::to_create(issues, title, rest, parent) {
        let new = model::stamped(content, id, at);
        if let Some(p) = parent {
            an_issue_is_found_by_its_id(issues, p);
            assert(is_holder(issues, model::found(issues, p)->0, p));
        }
        lemma_insert_is_with(issues, new);
        lemma_with_keeps_the_holders(model::after_insert(issues, new), issues, new);
    }
}

/// Filing an Issue keeps every invariant, under whatever fresh id the database
/// gives it.
pub proof fn filing_keeps_the_rules(
    issues: Seq<IssueModel>,
    title: Seq<char>,
    rest: PatchModel,
    parent: Option<IssueId>,
    id: IssueId,
    at: Timestamp,
)
    requires
        sound(issues),
        model::found(issues, id) is None,
    ensures
        sound(filed(issues, model::to_create(issues, title, rest, parent), id, at)),
{
    filing_keeps_families(issues, title, rest, parent, id, at);
    if let Ok(content) = model::to_create(issues, title, rest, parent) {
        let new = model::stamped(content, id, at);
        if rest.tags is Some {
            lemma_patched_tags_fit(issues, model::blank(title), rest);
        } else {
            assert(new.tags =~= Seq::<Seq<char>>::empty());
        }
        lemma_insert_is_with(issues, new);
        lemma_with_keeps_the_tags(model::after_insert(issues, new), issues, new);
    }
}

/// Patching an Issue keeps the rules of families, whatever the Tags are and
/// whether or not it is refused.
pub proof fn patching_keeps_the_family_rules(
    issues: Seq<IssueModel>,
    id: IssueId,
    patch: PatchModel,
    at: Timestamp,
)
    requires
        family_rules(issues),
    ensures
        family_rules(carried_out(issues, model::to_patch(issues, id, patch), at)),
{
    if let Ok(ChangeModel::Write(planned)) = model::to_patch(issues, id, patch) {
        an_issue_is_found_by_its_id(issues, id);
        let cur = model::found(issues, id)->0;
        let next = IssueModel { updated_at: at, ..planned };
        lemma_parts(issues, id);
        if cur.parent_id is Some {
            an_issue_is_found_by_its_id(issues, cur.parent_id->0);
        }
        assert(fits_the_rules(issues, next));
        lemma_update_is_with(issues, next);
        lemma_with_keeps_the_rules(model::after_update(issues, next), issues, next);
    }
}

/// Patching an Issue keeps families standing, whatever the Tags are and whether
/// or not it is refused.
pub proof fn patching_keeps_families(
    issues: Seq<IssueModel>,
    id: IssueId,
    patch: PatchModel,
    at: Timestamp,
)
    requires
        families_stand(issues),
    ensures
        families_stand(carried_out(issues, model::to_patch(issues, id, patch), at)),
{
    one_level_has_no_second(issues);
    patching_keeps_the_family_rules(issues, id, patch, at);
    if let Ok(ChangeModel::Write(planned)) = model::to_patch(issues, id, patch) {
        an_issue_is_found_by_its_id(issues, id);
        let next = IssueModel { updated_at: at, ..planned };
        an_issue_is_a_parent_or_a_part(issues, model::found(issues, id)->0);
        lemma_update_is_with(issues, next);
        lemma_with_keeps_the_holders(model::after_update(issues, next), issues, next);
    }
}

/// Patching an Issue keeps every invariant.
pub proof fn patching_keeps_the_rules(
    issues: Seq<IssueModel>,
    id: IssueId,
    patch: PatchModel,
    at: Timestamp,
)
    requires
        sound(issues),
    ensures
        sound(carried_out(issues, model::to_patch(issues, id, patch), at)),
{
    patching_keeps_families(issues, id, patch, at);
    if let Ok(ChangeModel::Write(planned)) = model::to_patch(issues, id, patch) {
        an_issue_is_found_by_its_id(issues, id);
        let cur = model::found(issues, id)->0;
        let next = IssueModel { updated_at: at, ..planned };
        if patch.tags is Some {
            lemma_patched_tags_fit(issues, model::content_of(cur), patch);
        }
        assert(fits_the_tags(issues, next));
        lemma_update_is_with(issues, next);
        lemma_with_keeps_the_tags(model::after_update(issues, next), issues, next);
    }
}

/// Filing an Issue under another, moving it, or making it part of nothing keeps
/// the rules of families, whatever the Tags are and whether or not it is
/// refused.
pub proof fn moving_keeps_the_family_rules(
    issues: Seq<IssueModel>,
    child: IssueId,
    parent: Option<IssueId>,
    at: Timestamp,
)
    requires
        family_rules(issues),
    ensures
        family_rules(carried_out(issues, model::to_set_parent(issues, child, parent), at)),
{
    if let Ok(ChangeModel::Write(planned)) = model::to_set_parent(issues, child, parent) {
        an_issue_is_found_by_its_id(issues, child);
        let next = IssueModel { updated_at: at, ..planned };
        lemma_parts(issues, child);
        if let Some(p) = parent {
            an_issue_is_found_by_its_id(issues, p);
        }
        assert(fits_the_rules(issues, next));
        lemma_update_is_with(issues, next);
        lemma_with_keeps_the_rules(model::after_update(issues, next), issues, next);
    }
}

/// Filing an Issue under another, moving it, or making it part of nothing keeps
/// families standing, whatever the Tags are and whether or not it is refused.
pub proof fn moving_keeps_families(
    issues: Seq<IssueModel>,
    child: IssueId,
    parent: Option<IssueId>,
    at: Timestamp,
)
    requires
        families_stand(issues),
    ensures
        families_stand(carried_out(issues, model::to_set_parent(issues, child, parent), at)),
{
    one_level_has_no_second(issues);
    moving_keeps_the_family_rules(issues, child, parent, at);
    if let Ok(ChangeModel::Write(planned)) = model::to_set_parent(issues, child, parent) {
        an_issue_is_found_by_its_id(issues, child);
        let next = IssueModel { updated_at: at, ..planned };
        lemma_parts(issues, child);
        if let Some(p) = parent {
            an_issue_is_found_by_its_id(issues, p);
            let holder = model::found(issues, p)->0;
            assert(is_holder(issues, holder, p) && holder.id != child);
        }
        lemma_update_is_with(issues, next);
        lemma_with_keeps_the_holders(model::after_update(issues, next), issues, next);
    }
}

/// Filing an Issue under another, moving it, or making it part of nothing keeps
/// every invariant.
pub proof fn moving_keeps_the_rules(
    issues: Seq<IssueModel>,
    child: IssueId,
    parent: Option<IssueId>,
    at: Timestamp,
)
    requires
        sound(issues),
    ensures
        sound(carried_out(issues, model::to_set_parent(issues, child, parent), at)),
{
    moving_keeps_families(issues, child, parent, at);
    if let Ok(ChangeModel::Write(planned)) = model::to_set_parent(issues, child, parent) {
        an_issue_is_found_by_its_id(issues, child);
        let next = IssueModel { updated_at: at, ..planned };
        assert(fits_the_tags(issues, next));
        lemma_update_is_with(issues, next);
        lemma_with_keeps_the_tags(model::after_update(issues, next), issues, next);
    }
}

/// Adding a Tag is patching the Tags, and so is taking one off.
proof fn lemma_tagging_is_patching(issues: Seq<IssueModel>, id: IssueId, name: Seq<char>)
    ensures
        model::to_add_tag(issues, id, name) matches Ok(ChangeModel::Write(_)) ==> exists|
            patch: PatchModel,
        | model::to_add_tag(issues, id, name) == #[trigger] model::to_patch(issues, id, patch),
        model::to_remove_tag(issues, id, name) matches Ok(ChangeModel::Write(_)) ==> exists|
            patch: PatchModel,
        | model::to_remove_tag(issues, id, name) == #[trigger] model::to_patch(issues, id, patch),
{
    if let Some(issue) = model::found(issues, id) {
        let more = if tag::has_tag(issue.tags, name) {
            issue.tags
        } else {
            issue.tags.push(name)
        };
        let fewer = issue.tags.filter(|x: Seq<char>| tag::key_of(x) != tag::key_of(name));
        if model::to_add_tag(issues, id, name) matches Ok(ChangeModel::Write(_)) {
            assert(model::to_add_tag(issues, id, name) == model::to_patch(
                issues,
                id,
                model::retagged(more),
            ));
        }
        if model::to_remove_tag(issues, id, name) matches Ok(ChangeModel::Write(_)) {
            assert(model::to_remove_tag(issues, id, name) == model::to_patch(
                issues,
                id,
                model::retagged(fewer),
            ));
        }
    }
}

/// Adding a Tag and taking one off keep the rules of families, whatever the Tags
/// are and whether or not it is refused.
pub proof fn tagging_keeps_the_family_rules(
    issues: Seq<IssueModel>,
    id: IssueId,
    name: Seq<char>,
    at: Timestamp,
)
    requires
        family_rules(issues),
    ensures
        family_rules(carried_out(issues, model::to_add_tag(issues, id, name), at)),
        family_rules(carried_out(issues, model::to_remove_tag(issues, id, name), at)),
{
    lemma_tagging_is_patching(issues, id, name);
    let adding = model::to_add_tag(issues, id, name);
    let removing = model::to_remove_tag(issues, id, name);
    if adding matches Ok(ChangeModel::Write(_)) {
        let patch = choose|patch: PatchModel|
            adding == #[trigger] model::to_patch(issues, id, patch);
        patching_keeps_the_family_rules(issues, id, patch, at);
    }
    if removing matches Ok(ChangeModel::Write(_)) {
        let patch = choose|patch: PatchModel|
            removing == #[trigger] model::to_patch(issues, id, patch);
        patching_keeps_the_family_rules(issues, id, patch, at);
    }
}

/// Adding a Tag and taking one off keep families standing, whatever the Tags are
/// and whether or not it is refused.
pub proof fn tagging_keeps_families(
    issues: Seq<IssueModel>,
    id: IssueId,
    name: Seq<char>,
    at: Timestamp,
)
    requires
        families_stand(issues),
    ensures
        families_stand(carried_out(issues, model::to_add_tag(issues, id, name), at)),
        families_stand(carried_out(issues, model::to_remove_tag(issues, id, name), at)),
{
    lemma_tagging_is_patching(issues, id, name);
    let adding = model::to_add_tag(issues, id, name);
    let removing = model::to_remove_tag(issues, id, name);
    if adding matches Ok(ChangeModel::Write(_)) {
        let patch = choose|patch: PatchModel|
            adding == #[trigger] model::to_patch(issues, id, patch);
        patching_keeps_families(issues, id, patch, at);
    }
    if removing matches Ok(ChangeModel::Write(_)) {
        let patch = choose|patch: PatchModel|
            removing == #[trigger] model::to_patch(issues, id, patch);
        patching_keeps_families(issues, id, patch, at);
    }
}

/// Adding a Tag and taking one off keep every invariant.
pub proof fn tagging_keeps_the_rules(
    issues: Seq<IssueModel>,
    id: IssueId,
    name: Seq<char>,
    at: Timestamp,
)
    requires
        sound(issues),
    ensures
        sound(carried_out(issues, model::to_add_tag(issues, id, name), at)),
        sound(carried_out(issues, model::to_remove_tag(issues, id, name), at)),
{
    lemma_tagging_is_patching(issues, id, name);
    let adding = model::to_add_tag(issues, id, name);
    let removing = model::to_remove_tag(issues, id, name);
    if adding matches Ok(ChangeModel::Write(_)) {
        let patch = choose|patch: PatchModel|
            adding == #[trigger] model::to_patch(issues, id, patch);
        patching_keeps_the_rules(issues, id, patch, at);
    }
    if removing matches Ok(ChangeModel::Write(_)) {
        let patch = choose|patch: PatchModel|
            removing == #[trigger] model::to_patch(issues, id, patch);
        patching_keeps_the_rules(issues, id, patch, at);
    }
}

/// Erasing an Issue keeps the rules of families, whatever the Tags are.
pub proof fn erasing_keeps_the_family_rules(issues: Seq<IssueModel>, id: IssueId)
    requires
        family_rules(issues),
    ensures
        family_rules(model::after_delete(issues, id)),
{
    let out = model::after_delete(issues, id);
    an_erasure_orphans_the_parts(issues, id);
    assert forall|b: IssueModel, q: IssueModel| #[trigger]
        out.contains(b) && #[trigger] out.contains(q) && b.parent_id == Some(
        q.id,
    ) implies q.parent_id is None && (q.status == Status::Done ==> b.status.settled()) by {
        let a = choose|a: IssueModel|
            #![trigger issues.contains(a)]
            issues.contains(a) && a.id != id && b == model::orphaned(a, id);
        let p = choose|p: IssueModel|
            #![trigger issues.contains(p)]
            issues.contains(p) && p.id != id && q == model::orphaned(p, id);
        assert(issues.contains(a) && issues.contains(p));
    }
}

/// Erasing an Issue keeps families standing, whatever the Tags are.
pub proof fn erasing_keeps_families(issues: Seq<IssueModel>, id: IssueId)
    requires
        families_stand(issues),
    ensures
        families_stand(model::after_delete(issues, id)),
{
    let out = model::after_delete(issues, id);
    one_level_has_no_second(issues);
    erasing_keeps_the_family_rules(issues, id);
    an_erasure_orphans_the_parts(issues, id);
    assert forall|b: IssueModel| #[trigger]
        out.contains(b) && b.parent_id is Some implies exists|p: IssueModel|
        is_holder(out, p, b.parent_id->0) by {
        let a = choose|a: IssueModel|
            #![trigger issues.contains(a)]
            issues.contains(a) && a.id != id && b == model::orphaned(a, id);
        let p = choose|p: IssueModel| is_holder(issues, p, a.parent_id->0);
        assert(issues.contains(p));
        assert(out.contains(model::orphaned(p, id)));
        assert(is_holder(out, model::orphaned(p, id), b.parent_id->0));
    }
}

/// Erasing an Issue keeps every invariant.
pub proof fn erasing_keeps_the_rules(issues: Seq<IssueModel>, id: IssueId)
    requires
        sound(issues),
    ensures
        sound(model::after_delete(issues, id)),
{
    let out = model::after_delete(issues, id);
    erasing_keeps_families(issues, id);
    an_erasure_orphans_the_parts(issues, id);
    assert forall|b: IssueModel| #[trigger] out.contains(b) implies tag::in_key_order(b.tags) by {
        let a = choose|a: IssueModel|
            #![trigger issues.contains(a)]
            issues.contains(a) && a.id != id && b == model::orphaned(a, id);
        assert(issues.contains(a));
    }
    assert forall|b: IssueModel, d: IssueModel, x: Seq<char>, y: Seq<char>|
        #![trigger out.contains(b), out.contains(d), b.tags.contains(x), d.tags.contains(y)]
        out.contains(b) && out.contains(d) && b.tags.contains(x) && d.tags.contains(y)
            && tag::key_of(x) == tag::key_of(y) implies x == y by {
        let a = choose|a: IssueModel|
            #![trigger issues.contains(a)]
            issues.contains(a) && a.id != id && b == model::orphaned(a, id);
        let c = choose|c: IssueModel|
            #![trigger issues.contains(c)]
            issues.contains(c) && c.id != id && d == model::orphaned(c, id);
        assert(issues.contains(a) && issues.contains(c));
        assert(a.tags.contains(x) && c.tags.contains(y));
    }
}

// ---------------------------------------------------------------------------
// Patches
// ---------------------------------------------------------------------------

/// A patch that names no field changes nothing, so nothing is written and the
/// Issue keeps its place.
pub proof fn an_empty_patch_writes_nothing(issues: Seq<IssueModel>, id: IssueId)
    requires
        model::found(issues, id) is Some,
    ensures
        model::to_patch(issues, id, crate::projection::no_change()) == Ok::<
            ChangeModel,
            crate::projection::WriteErrorModel,
        >(ChangeModel::Unchanged(model::found(issues, id)->0)),
{
    lemma_place(issues, id);
    let cur = model::found(issues, id)->0;
    let next = model::with_content(
        cur,
        model::patched(
            model::content_of(cur),
            crate::projection::no_change(),
            model::vocabulary(issues),
        ),
    );
    assert(next =~= cur);
}

/// Whether two patches name no field in common.
pub open spec fn apart(p: PatchModel, q: PatchModel) -> bool {
    &&& p.title is None || q.title is None
    &&& p.body is None || q.body is None
    &&& p.status is None || q.status is None
    &&& p.priority is None || q.priority is None
    &&& p.tags is None || q.tags is None
    &&& p.size is None || q.size is None
}

/// Two callers touching different fields cannot clobber one another: their
/// patches come to the same, whichever is applied first.
pub proof fn patches_to_different_fields_do_not_clobber(
    content: model::Content,
    p: PatchModel,
    q: PatchModel,
    in_use: Seq<Seq<char>>,
)
    requires
        apart(p, q),
    ensures
        model::patched(model::patched(content, p, in_use), q, in_use) == model::patched(
            model::patched(content, q, in_use),
            p,
            in_use,
        ),
{
}

// ---------------------------------------------------------------------------
// Tags, one at a time
// ---------------------------------------------------------------------------

/// Names in key order stay the same Tags when they are folded.
pub proof fn lemma_folding_keeps_the_tags(names: Seq<Seq<char>>, in_use: Seq<Seq<char>>)
    requires
        tag::in_key_order(names),
    ensures
        issue::same_tags(tag::normalised(names, in_use), names),
{
    let folded = names.map_values(|name: Seq<char>| tag::canonical(name, in_use));
    assert forall|i: int| 0 <= i < names.len() implies tag::key_of(#[trigger] folded[i])
        == tag::key_of(names[i]) by {
        tag::a_settled_spelling_has_its_key(names[i], in_use);
    }
    assert forall|i: int, j: int| 0 <= i < j < folded.len() implies text::precedes(
        tag::key_of(#[trigger] folded[i]),
        tag::key_of(#[trigger] folded[j]),
    ) by {
        assert(text::precedes(tag::key_of(names[i]), tag::key_of(names[j])));
    }
    tag::collecting_what_is_in_order_changes_nothing(folded);
}

/// Once a Tag has been added the Issue carries it, with every Tag it carried
/// before, and adding it again writes nothing.
pub proof fn a_tag_is_added_once(
    issues: Seq<IssueModel>,
    id: IssueId,
    name: Seq<char>,
    at: Timestamp,
)
    requires
        distinct_ids(issues),
        model::to_add_tag(issues, id, name) matches Ok(ChangeModel::Write(_)),
    ensures
        ({
            let before = model::found(issues, id)->0;
            let next = IssueModel {
                updated_at: at,
                ..model::to_add_tag(issues, id, name)->Ok_0->Write_0
            };
            let after = model::after_update(issues, next);
            &&& tag::has_tag(next.tags, name)
            &&& forall|i: int|
                0 <= i < before.tags.len() ==> tag::has_tag(next.tags, #[trigger] before.tags[i])
            &&& model::to_add_tag(after, id, name) matches Ok(ChangeModel::Unchanged(_))
        }),
{
    let before = model::found(issues, id)->0;
    let next = IssueModel {
        updated_at: at,
        ..model::to_add_tag(issues, id, name)->Ok_0->Write_0
    };
    let after = model::after_update(issues, next);
    let wanted = if tag::has_tag(before.tags, name) {
        before.tags
    } else {
        before.tags.push(name)
    };
    an_issue_is_found_by_its_id(issues, id);
    tag::normalising_keeps_every_tag(wanted, model::vocabulary(issues));
    if tag::has_tag(before.tags, name) {
        let k = choose|k: int|
            0 <= k < before.tags.len() && tag::key_of(#[trigger] before.tags[k]) == tag::key_of(
                name,
            );
        assert(tag::has_tag(next.tags, wanted[k]));
        let m = choose|m: int| 0 <= m < next.tags.len() && tag::key_of(#[trigger] next.tags[m])
            == tag::key_of(wanted[k]);
        assert(tag::key_of(next.tags[m]) == tag::key_of(name));
    } else {
        assert(wanted[before.tags.len() as int] == name);
    }
    assert forall|i: int| 0 <= i < before.tags.len() implies tag::has_tag(
        next.tags,
        #[trigger] before.tags[i],
    ) by {
        assert(wanted[i] == before.tags[i]);
    }
    an_update_replaces_one_issue(issues, next);
    an_issue_is_found_by_its_id(after, id);
    assert(after.contains(next));
    assert(model::found(after, id) == Some(next));
    lemma_folding_keeps_the_tags(next.tags, model::vocabulary(after));
}

/// Once a Tag has been taken off the Issue no longer carries it, and taking it
/// off again writes nothing.
pub proof fn a_tag_is_taken_off_once(
    issues: Seq<IssueModel>,
    id: IssueId,
    name: Seq<char>,
    at: Timestamp,
)
    requires
        distinct_ids(issues),
        model::to_remove_tag(issues, id, name) matches Ok(ChangeModel::Write(_)),
    ensures
        ({
            let next = IssueModel {
                updated_at: at,
                ..model::to_remove_tag(issues, id, name)->Ok_0->Write_0
            };
            let after = model::after_update(issues, next);
            &&& !tag::has_tag(next.tags, name)
            &&& model::to_remove_tag(after, id, name) matches Ok(ChangeModel::Unchanged(_))
        }),
{
    let before = model::found(issues, id)->0;
    let next = IssueModel {
        updated_at: at,
        ..model::to_remove_tag(issues, id, name)->Ok_0->Write_0
    };
    let after = model::after_update(issues, next);
    let other = |x: Seq<char>| tag::key_of(x) != tag::key_of(name);
    let wanted = before.tags.filter(other);
    an_issue_is_found_by_its_id(issues, id);
    lemma_filter_contents(before.tags, other);
    tag::normalising_keeps_every_tag(wanted, model::vocabulary(issues));
    assert forall|m: int| 0 <= m < next.tags.len() implies tag::key_of(#[trigger] next.tags[m])
        != tag::key_of(name) by {
        assert(next.tags.contains(next.tags[m]));
        let i = choose|i: int|
            0 <= i < wanted.len() && next.tags[m] == tag::canonical(
                #[trigger] wanted[i],
                model::vocabulary(issues),
            );
        tag::a_settled_spelling_has_its_key(wanted[i], model::vocabulary(issues));
        assert(wanted.contains(wanted[i]));
    }
    an_update_replaces_one_issue(issues, next);
    an_issue_is_found_by_its_id(after, id);
    assert(after.contains(next));
    assert(model::found(after, id) == Some(next));
    lemma_filter_all(next.tags, other);
    lemma_folding_keeps_the_tags(next.tags, model::vocabulary(after));
}

proof fn lemma_filter_all<A>(all: Seq<A>, pass: spec_fn(A) -> bool)
    requires
        forall|i: int| 0 <= i < all.len() ==> pass(#[trigger] all[i]),
    ensures
        all.filter(pass) == all,
    decreases all.len(),
{
    reveal(Seq::filter);
    if all.len() > 0 {
        lemma_filter_all(all.drop_last(), pass);
        assert(all.drop_last().push(all.last()) =~= all);
    } else {
        assert(all.filter(pass) =~= all);
    }
}

// ---------------------------------------------------------------------------
// Families
// ---------------------------------------------------------------------------

/// What a picker offers, the writer accepts: an Issue that may be attached is
/// attached, or is there already.
pub proof fn what_is_offered_is_accepted(
    issues: Seq<IssueModel>,
    child: IssueId,
    parent: IssueId,
)
    ensures
        model::why_not_attach(issues, child, parent) is None <==> model::to_set_parent(
            issues,
            child,
            Some(parent),
        ) is Ok,
{
    lemma_place(issues, child);
}

proof fn lemma_settled_and_outstanding(issues: Seq<IssueModel>)
    ensures
        model::settled_of(issues).len() + model::outstanding_of(issues).len() == issues.len(),
    decreases issues.len(),
{
    reveal(Seq::filter);
    if issues.len() > 0 {
        lemma_settled_and_outstanding(issues.drop_last());
    }
}

/// The number beside a parent explains the Done rule: it may be marked Done
/// exactly when it has no parts, or all of them are settled.
pub proof fn progress_explains_the_done_rule(issues: Seq<IssueModel>, id: IssueId)
    ensures
        model::why_not_become(issues, id, Status::Done) is None <==> (match model::progress(
            model::parts(issues, id),
        ) {
            None => true,
            Some((settled, total)) => settled == total,
        }),
{
    lemma_settled_and_outstanding(model::parts(issues, id));
}

/// Attaching an Issue that belongs to another moves it: it is then part of the
/// new parent and of nothing else.
pub proof fn attaching_moves(
    issues: Seq<IssueModel>,
    child: IssueId,
    parent: IssueId,
    at: Timestamp,
)
    requires
        distinct_ids(issues),
        model::to_set_parent(issues, child, Some(parent)) matches Ok(ChangeModel::Write(_)),
    ensures
        ({
            let next = IssueModel {
                updated_at: at,
                ..model::to_set_parent(issues, child, Some(parent))->Ok_0->Write_0
            };
            let after = model::after_update(issues, next);
            &&& model::parts(after, parent).contains(next)
            &&& forall|other: IssueId, a: IssueModel| #[trigger]
                model::parts(after, other).contains(a) && a.id == child ==> other == parent
        }),
{
    let next = IssueModel {
        updated_at: at,
        ..model::to_set_parent(issues, child, Some(parent))->Ok_0->Write_0
    };
    let after = model::after_update(issues, next);
    an_issue_is_found_by_its_id(issues, child);
    an_update_replaces_one_issue(issues, next);
    lemma_filter_contents(after, |i: IssueModel| i.parent_id == Some(parent));
    assert(after.contains(next));
    assert forall|other: IssueId, a: IssueModel| #[trigger]
        model::parts(after, other).contains(a) && a.id == child implies other == parent by {
        lemma_filter_contents(after, |i: IssueModel| i.parent_id == Some(other));
        assert(after.contains(a));
    }
}

} // verus!
