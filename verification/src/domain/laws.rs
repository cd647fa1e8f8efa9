//! What the domain's words mean, said of the values themselves.

use vstd::prelude::*;
use vstd::view::View as _;

use crate::domain::issue;
use crate::domain::issue::IssueModel;
use crate::domain::kinds::{IssueId, Priority, Status};
use crate::domain::narrowing::{NarrowingModel, ParentFilter};
use crate::domain::tag;
use crate::domain::view::View;
use crate::projection::effects;
use crate::projection::laws;
use crate::text;

verus! {

broadcast use vstd::seq_lib::group_seq_properties;

// ---------------------------------------------------------------------------
// Order
// ---------------------------------------------------------------------------

/// In a list in display order, what stands earlier has a Priority no lower than
/// what stands later: Urgent is the highest, then High, Medium, Low and none.
/// Among those of one Priority what was changed later stands earlier, and of
/// those changed at one moment the one with the greater id.
pub proof fn the_most_pressing_stands_first(issues: Seq<IssueModel>, i: int, j: int)
    requires
        issue::in_display_order(issues),
        0 <= i < j < issues.len(),
    ensures
        issues[j].priority == Priority::Urgent ==> issues[i].priority == Priority::Urgent,
        issues[j].priority == Priority::High ==> issues[i].priority == Priority::Urgent
            || issues[i].priority == Priority::High,
        issues[j].priority == Priority::Medium ==> issues[i].priority != Priority::Low
            && issues[i].priority != Priority::Unset,
        issues[j].priority == Priority::Low ==> issues[i].priority != Priority::Unset,
        issues[i].priority == issues[j].priority ==> {
            ||| issues[i].updated_at.spec_secs() > issues[j].updated_at.spec_secs()
            ||| (issues[i].updated_at.spec_secs() == issues[j].updated_at.spec_secs()
                && issues[i].updated_at.spec_nanos() > issues[j].updated_at.spec_nanos())
            ||| (issues[i].updated_at.spec_secs() == issues[j].updated_at.spec_secs()
                && issues[i].updated_at.spec_nanos() == issues[j].updated_at.spec_nanos()
                && issues[i].id >= issues[j].id)
        },
{
    assert(!issue::shown_before(issues[j], issues[i]));
}

/// The Priorities rank as they are listed, the lowest first.
pub proof fn the_priorities_rank_as_they_are_listed(i: int, j: int)
    requires
        0 <= i < j < 5,
    ensures
        Priority::ALL[i].rank_spec() < Priority::ALL[j].rank_spec(),
        Priority::ALL[0] == Priority::Unset,
        Priority::ALL[1] == Priority::Low,
        Priority::ALL[2] == Priority::Medium,
        Priority::ALL[3] == Priority::High,
        Priority::ALL[4] == Priority::Urgent,
{
}

/// Putting Issues in display order keeps every one and adds none.
pub proof fn ordering_loses_nothing(issues: Seq<IssueModel>)
    ensures
        issue::in_display_order(issue::displayed(issues)),
        issue::displayed(issues).to_multiset() == issues.to_multiset(),
        forall|a: IssueModel| #[trigger]
            issue::displayed(issues).contains(a) <==> issues.contains(a),
{
    issue::display_order_is_a_rearrangement(issues);
    laws::lemma_displayed_contents(issues);
}

// ---------------------------------------------------------------------------
// Kinds
// ---------------------------------------------------------------------------

/// What each Status is called, and that Done and Cancelled are the two that are
/// settled.
pub proof fn the_statuses_are_what_they_are_called(status: Status)
    ensures
        Status::ALL[0] == Status::Todo,
        Status::ALL[1] == Status::Doing,
        Status::ALL[2] == Status::Blocked,
        Status::ALL[3] == Status::Done,
        Status::ALL[4] == Status::Cancelled,
        Status::Todo.name() == "Todo"@,
        Status::Doing.name() == "Doing"@,
        Status::Blocked.name() == "Blocked"@,
        Status::Done.name() == "Done"@,
        Status::Cancelled.name() == "Cancelled"@,
        status.settled() <==> status != Status::Todo && status != Status::Doing && status
            != Status::Blocked,
{
}

/// A word means a Status exactly if it is the Status's name in whatever case.
pub proof fn a_word_means_the_status_it_names(word: Seq<char>)
    ensures
        Status::named(word) == Some(Status::Todo) <==> text::ascii_lowered(word) == "todo"@,
        Status::named(word) == Some(Status::Doing) <==> text::ascii_lowered(word) == "doing"@,
        Status::named(word) == Some(Status::Blocked) <==> text::ascii_lowered(word) == "blocked"@,
        Status::named(word) == Some(Status::Done) <==> text::ascii_lowered(word) == "done"@,
        Status::named(word) == Some(Status::Cancelled) <==> text::ascii_lowered(word)
            == "cancelled"@,
{
    reveal_strlit("Todo");
    reveal_strlit("Doing");
    reveal_strlit("Blocked");
    reveal_strlit("Done");
    reveal_strlit("Cancelled");
    reveal_strlit("todo");
    reveal_strlit("doing");
    reveal_strlit("blocked");
    reveal_strlit("done");
    reveal_strlit("cancelled");
    assert(text::ascii_lowered("Todo"@) =~= "todo"@);
    assert(text::ascii_lowered("Doing"@) =~= "doing"@);
    assert(text::ascii_lowered("Blocked"@) =~= "blocked"@);
    assert(text::ascii_lowered("Done"@) =~= "done"@);
    assert(text::ascii_lowered("Cancelled"@) =~= "cancelled"@);
    assert("doing"@[1] != "done"@[2]);
    assert("todo"@[0] != "done"@[0]);
}

/// What each Priority is called.
pub proof fn the_priorities_are_what_they_are_called()
    ensures
        Priority::Unset.name() == "None"@,
        Priority::Low.name() == "Low"@,
        Priority::Medium.name() == "Medium"@,
        Priority::High.name() == "High"@,
        Priority::Urgent.name() == "Urgent"@,
{
}

/// A word means a Priority exactly if it is the Priority's name in whatever case.
pub proof fn a_word_means_the_priority_it_names(word: Seq<char>)
    ensures
        Priority::named(word) == Some(Priority::Unset) <==> text::ascii_lowered(word) == "none"@,
        Priority::named(word) == Some(Priority::Low) <==> text::ascii_lowered(word) == "low"@,
        Priority::named(word) == Some(Priority::Medium) <==> text::ascii_lowered(word) == "medium"@,
        Priority::named(word) == Some(Priority::High) <==> text::ascii_lowered(word) == "high"@,
        Priority::named(word) == Some(Priority::Urgent) <==> text::ascii_lowered(word) == "urgent"@,
{
    reveal_strlit("None");
    reveal_strlit("Low");
    reveal_strlit("Medium");
    reveal_strlit("High");
    reveal_strlit("Urgent");
    reveal_strlit("none");
    reveal_strlit("low");
    reveal_strlit("medium");
    reveal_strlit("high");
    reveal_strlit("urgent");
    assert(text::ascii_lowered("None"@) =~= "none"@);
    assert(text::ascii_lowered("Low"@) =~= "low"@);
    assert(text::ascii_lowered("Medium"@) =~= "medium"@);
    assert(text::ascii_lowered("High"@) =~= "high"@);
    assert(text::ascii_lowered("Urgent"@) =~= "urgent"@);
    assert("none"@[0] != "high"@[0]);
    assert("medium"@[0] != "urgent"@[0]);
}

// ---------------------------------------------------------------------------
// Narrowing
// ---------------------------------------------------------------------------

/// Whether a text stands somewhere in another.
pub open spec fn stands_in(needle: Seq<char>, s: Seq<char>) -> bool {
    exists|before: Seq<char>, after: Seq<char>| s == #[trigger] (before + needle + after)
}

/// What stands in part of a text stands in the text.
pub proof fn lemma_stands_within(
    needle: Seq<char>,
    before: Seq<char>,
    middle: Seq<char>,
    after: Seq<char>,
)
    requires
        stands_in(needle, middle),
    ensures
        stands_in(needle, before + middle + after),
{
    let (b, a) = choose|b: Seq<char>, a: Seq<char>| middle == #[trigger] (b + needle + a);
    assert(before + middle + after =~= (before + b) + needle + (a + after));
}

pub proof fn lemma_stands_in(needle: Seq<char>, s: Seq<char>)
    ensures
        stands_in(needle, s) <==> text::holds(s, needle),
{
    if text::holds(s, needle) {
        let at = choose|at: int| text::holds_at(s, needle, at);
        assert(s =~= s.take(at) + needle + s.skip(at + needle.len()));
    }
    if stands_in(needle, s) {
        let (before, after) = choose|before: Seq<char>, after: Seq<char>|
            s == #[trigger] (before + needle + after);
        assert(s.subrange(before.len() as int, before.len() as int + needle.len()) =~= needle);
        assert(text::holds_at(s, needle, before.len() as int));
    }
}

/// A narrowing keeps an Issue exactly if each thing it asks for is so: the
/// Status is the wanted one, some Tag of the Issue is the wanted one however
/// spelled, the Issue is part of what is wanted or of nothing where that is
/// wanted, and what is searched for stands in the title whatever the case. What
/// is not asked for, or searched for as white space, rules nothing out.
pub proof fn a_narrowing_keeps_exactly_what_it_asks_for(
    narrowing: NarrowingModel,
    issues: Seq<IssueModel>,
    a: IssueModel,
)
    ensures
        narrowing.selected(issues).contains(a) <==> {
            &&& issues.contains(a)
            &&& narrowing.view matches View::WithStatus(wanted) ==> a.status == wanted
            &&& narrowing.tag matches Some(name) ==> effects::holds_key(
                a.tags,
                text::lowercased(name),
            )
            &&& narrowing.parent matches Some(ParentFilter::Under(id)) ==> a.parent_id == Some(id)
            &&& narrowing.parent matches Some(ParentFilter::Unparented) ==> a.parent_id is None
            &&& narrowing.title matches Some(wanted) ==> text::trimmed(wanted).len() == 0
                || stands_in(text::lowercased(text::trimmed(wanted)), text::lowercased(a.title))
        },
{
    laws::lemma_filter_contents(issues, |i: IssueModel| narrowing.admits(i));
    if let Some(name) = narrowing.tag {
        effects::lemma_holds_key(a.tags, name);
    }
    if let Some(wanted) = narrowing.title {
        let folded = text::lowercased(text::trimmed(wanted));
        lemma_stands_in(folded, text::lowercased(a.title));
        if folded.len() == 0 {
            assert(text::lowercased(a.title) =~= text::lowercased(a.title) + folded
                + Seq::<char>::empty());
        }
    }
}

/// A narrowing keeps what it keeps in the order it stood in.
pub proof fn a_narrowing_keeps_the_order(narrowing: NarrowingModel, issues: Seq<IssueModel>)
    requires
        issue::in_display_order(issues),
    ensures
        issue::in_display_order(narrowing.selected(issues)),
{
    crate::projection::lemma_filtering_keeps_order(
        issues,
        |i: IssueModel| narrowing.admits(i),
    );
}

/// What a parent filter is read from: `none`, or an id.
pub proof fn a_parent_filter_is_none_or_an_id(word: Seq<char>, id: IssueId)
    ensures
        ParentFilter::named(word) == Some(ParentFilter::Unparented) <==> word == "none"@,
        word != "none"@ ==> (ParentFilter::named(word) == Some(ParentFilter::Under(id))
            <==> text::integer(word) == Some(id as int)),
        ParentFilter::named(text::decimal(id as int)) == Some(ParentFilter::Under(id)),
{
    reveal_strlit("none");
    text::a_written_number_reads_back(id);
    let written = text::decimal(id as int);
    if word != "none"@ {
        if let Some(n) = text::integer(word) {
            text::lemma_integer_fits(word);
        }
    }
    text::lemma_decimal_starts(id as int);
}

/// What a View is called, and what it shows.
pub proof fn a_view_shows_its_status(view: View, status: Status)
    ensures
        view == View::All ==> view.shows(status) && view.title() == "All Issues"@ && view.stored()
            == "All"@,
        view matches View::WithStatus(wanted) ==> (view.shows(status) <==> status == wanted)
            && view.title() == wanted.name() && view.stored() == wanted.name(),
        View::named("All"@) == Some(View::All),
        View::named("all"@) is None,
{
    reveal_strlit("All");
    reveal_strlit("all");
    a_word_means_the_status_it_names("all"@);
    reveal_strlit("todo");
    reveal_strlit("doing");
    reveal_strlit("blocked");
    reveal_strlit("done");
    reveal_strlit("cancelled");
    assert("All"@[0] != "all"@[0]);
    assert(text::ascii_lowered("all"@).len() == 3);
}

// ---------------------------------------------------------------------------
// Titles and Sizes
// ---------------------------------------------------------------------------

/// A title is shown as it is, unless it is all white space: then it is shown as
/// Untitled.
pub proof fn a_blank_title_is_shown_as_untitled(title: Seq<char>)
    ensures
        (forall|i: int| 0 <= i < title.len() ==> text::is_white_space(#[trigger] title[i]))
            ==> issue::shown_title(title) == "Untitled"@,
        (exists|i: int| 0 <= i < title.len() && !text::is_white_space(#[trigger] title[i]))
            ==> issue::shown_title(title) == title,
{
    text::trimming_takes_white_space_alone(title);
}

/// A family's total is what its Sizes add up to: with one more part it grows by
/// that part's Size, or by nothing where it has none, and there is no total
/// exactly where nothing in the family has a Size.
pub proof fn a_total_adds_every_size(own: IssueModel, parts: Seq<IssueModel>, more: IssueModel)
    ensures
        issue::family_total(own, Seq::<IssueModel>::empty()) == match own.size {
            Some(n) => Some(n as nat),
            None => None,
        },
        issue::family_total(own, parts.push(more)) == match (
            issue::family_total(own, parts),
            more.size,
        ) {
            (Some(total), Some(n)) => Some(total + n as nat),
            (Some(total), None) => Some(total),
            (None, Some(n)) => Some(n as nat),
            (None, None) => None,
        },
        issue::unsized_parts(Seq::<IssueModel>::empty()) == 0,
        issue::unsized_parts(parts.push(more)) == issue::unsized_parts(parts) + if more.size
            is None {
            1nat
        } else {
            0
        },
{
    reveal(Seq::filter);
    let none = Seq::<IssueModel>::empty();
    let one = issue::family_sizes(own, none);
    assert(one =~= seq![own.size]);
    assert(one.drop_last() =~= Seq::<Option<u8>>::empty());
    if own.size is Some {
        assert(one[0] is Some);
    }
    reveal_with_fuel(issue::size_sum, 3);
    let before = issue::family_sizes(own, parts);
    let after = issue::family_sizes(own, parts.push(more));
    assert(after =~= before.push(more.size));
    assert(after.drop_last() =~= before);
    if issue::any_sized(before) {
        let i = choose|i: int| 0 <= i < before.len() && (#[trigger] before[i]) is Some;
        assert(after[i] is Some);
    } else {
        lemma_nothing_sized(before);
        if more.size is Some {
            assert(after[before.len() as int] is Some);
        } else {
            assert forall|i: int| 0 <= i < after.len() implies (#[trigger] after[i]) is None by {
                if i < before.len() {
                    assert(before[i] is None);
                }
            }
        }
    }
    assert(parts.push(more).drop_last() =~= parts);
}

proof fn lemma_nothing_sized(sizes: Seq<Option<u8>>)
    requires
        !issue::any_sized(sizes),
    ensures
        issue::size_sum(sizes) == 0,
    decreases sizes.len(),
{
    if sizes.len() > 0 {
        assert(sizes[sizes.len() - 1] is None);
        assert forall|i: int| 0 <= i < sizes.drop_last().len() implies (
        #[trigger] sizes.drop_last()[i]) is None by {
            assert(sizes[i] is None);
        }
        lemma_nothing_sized(sizes.drop_last());
    }
}

// ---------------------------------------------------------------------------
// Tags
// ---------------------------------------------------------------------------

/// A name may be a Tag's exactly if it is one to fifty characters, none of them
/// a control character.
pub proof fn a_tag_is_a_short_line(name: Seq<char>)
    ensures
        tag::usable_name(name) <==> 1 <= name.len() <= 50 && forall|i: int|
            0 <= i < name.len() ==> {
                &&& (#[trigger] name[i]) > '\u{1f}'
                &&& !('\u{7f}' <= name[i] <= '\u{9f}')
            },
{
    if tag::usable_name(name) {
        assert forall|i: int| 0 <= i < name.len() implies (#[trigger] name[i]) > '\u{1f}' && !(
        '\u{7f}' <= name[i] <= '\u{9f}') by {
            assert(!text::is_control(name[i]));
        }
    }
}

/// Of several spellings of one Tag the first is the one collected; the Tags come
/// out in the order of their keys, each once.
pub proof fn the_first_spelling_is_kept(names: Seq<Seq<char>>, k: int)
    requires
        0 <= k < tag::collected(names).len(),
    ensures
        exists|i: int|
            0 <= i < names.len() && #[trigger] names[i] == tag::collected(names)[k] && forall|j: int|
                0 <= j < i ==> text::lowercased(#[trigger] names[j]) != text::lowercased(
                    tag::collected(names)[k],
                ),
        forall|j: int|
            0 <= j < k ==> text::precedes(
                text::lowercased(#[trigger] tag::collected(names)[j]),
                text::lowercased(tag::collected(names)[k]),
            ),
    decreases names.len(),
{
    tag::collecting_keeps_every_tag(names);
    let out = tag::collected(names);
    assert forall|j: int| 0 <= j < k implies text::precedes(
        text::lowercased(#[trigger] out[j]),
        text::lowercased(out[k]),
    ) by {
        assert(text::precedes(tag::key_of(out[j]), tag::key_of(out[k])));
    }
    lemma_first_spelling(names, out[k]);
}

proof fn lemma_first_spelling(names: Seq<Seq<char>>, x: Seq<char>)
    requires
        tag::collected(names).contains(x),
    ensures
        exists|i: int|
            0 <= i < names.len() && #[trigger] names[i] == x && forall|j: int|
                0 <= j < i ==> text::lowercased(#[trigger] names[j]) != text::lowercased(x),
    decreases names.len(),
{
    if names.len() > 0 {
        let head = names.drop_last();
        let before = tag::collected(head);
        tag::collecting_keeps_every_tag(head);
        tag::collecting_keeps_every_tag(names);
        tag::lemma_with_name_holds(before, names.last());
        if before.contains(x) {
            lemma_first_spelling(head, x);
            let i = choose|i: int|
                0 <= i < head.len() && #[trigger] head[i] == x && forall|j: int|
                    0 <= j < i ==> text::lowercased(#[trigger] head[j]) != text::lowercased(x);
            assert(names[i] == x);
            assert forall|j: int| 0 <= j < i implies text::lowercased(#[trigger] names[j])
                != text::lowercased(x) by {
                assert(head[j] == names[j]);
            }
        } else {
            let last = names.len() - 1;
            assert(names[last] == x);
            tag::lemma_known_name_adds_nothing(before, x);
            assert forall|j: int| 0 <= j < last implies text::lowercased(#[trigger] names[j])
                != text::lowercased(x) by {
                assert(head[j] == names[j]);
                if text::lowercased(names[j]) == text::lowercased(x) {
                    assert(tag::has_tag(before, head[j]));
                    let m = choose|m: int|
                        0 <= m < before.len() && tag::key_of(#[trigger] before[m]) == tag::key_of(
                            head[j],
                        );
                    assert(tag::key_of(before[m]) == tag::key_of(x));
                    assert(tag::has_tag(before, x));
                }
            }
        }
    }
}

} // verus!
