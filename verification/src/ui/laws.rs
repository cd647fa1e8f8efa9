//! What the window shows of an Issue, and what it makes of what is typed and
//! pressed.

use vstd::prelude::*;
use vstd::view::View as _;

use crate::domain::issue;
use crate::domain::issue::IssueModel;
use crate::domain::kinds::{IssueId, Priority, Status};
use crate::domain::laws::stands_in;
use crate::domain::tag;
use crate::domain::view::View;
use crate::projection::model;
use crate::text;
use crate::time;
use crate::ui::preferences;
use crate::ui::preferences::{PreferencesModel, ThemeMode};
use crate::ui::tag_colour;
use crate::ui::theme_catalogue;
use crate::ui::theme_catalogue::ThemeModel;
use crate::ui::tracker;
use crate::ui::tracker::{InputsModel, Relations, TrackerModel};
use crate::ui::views;
use crate::ui::views::{StatusButton, ViewRow};
use crate::ui::working_state;
use crate::ui::working_state::{StoredModel, WorkingModel};

verus! {

// ---------------------------------------------------------------------------
// The list
// ---------------------------------------------------------------------------

/// A row of the list tells an Issue's number, title, Status, Priority unless it
/// has none, how many of its parts are Done or Cancelled out of how many, the
/// number of what it is part of, and its Tags. The selected one is marked.
pub proof fn a_row_tells_the_issue(
    issue: IssueModel,
    issues: Seq<IssueModel>,
    selected: Option<IssueId>,
    palette: int,
    i: int,
)
    ensures
        ({
            let row = views::row_of(issue, issues, selected, palette);
            let parts = issues.filter(|p: IssueModel| p.parent_id == Some(issue.id));
            &&& row.id == issue.id
            &&& row.number == "#"@ + text::decimal(issue.id as int)
            &&& text::trimmed(issue.title).len() > 0 ==> row.title == issue.title
            &&& row.status == issue.status.name()
            &&& row.priority is None <==> issue.priority == Priority::Unset
            &&& row.priority matches Some(word) ==> Priority::named(word) == Some(issue.priority)
            &&& row.progress is None <==> parts.len() == 0
            &&& row.progress matches Some(told) ==> told == text::decimal(
                parts.filter(
                    |p: IssueModel| p.status == Status::Done || p.status == Status::Cancelled,
                ).len() as int,
            ) + "/"@ + text::decimal(parts.len() as int)
            &&& row.parent is None <==> issue.parent_id is None
            &&& row.parent matches Some(told) ==> told == "\u{21b3} "@ + ("#"@ + text::decimal(
                issue.parent_id->0 as int,
            ))
            &&& row.chips.len() == issue.tags.len()
            &&& 0 <= i < issue.tags.len() ==> row.chips[i].name == issue.tags[i]
                && row.chips[i].key == text::lowercased(issue.tags[i])
            &&& row.selected <==> selected == Some(issue.id)
        }),
{
    crate::domain::kinds::a_priority_reads_back(issue.priority);
    lemma_settled(issues.filter(|p: IssueModel| p.parent_id == Some(issue.id)));
}

proof fn lemma_settled(list: Seq<IssueModel>)
    ensures
        model::settled_of(list) == list.filter(
            |p: IssueModel| p.status == Status::Done || p.status == Status::Cancelled,
        ),
        model::outstanding_of(list) == list.filter(
            |p: IssueModel| p.status != Status::Done && p.status != Status::Cancelled,
        ),
    decreases list.len(),
{
    reveal(Seq::filter);
    if list.len() > 0 {
        lemma_settled(list.drop_last());
    }
}

/// The rows of a list are those of the Issues on show, one each and in order.
pub proof fn a_list_has_a_row_for_each_issue(
    shown: Seq<IssueModel>,
    issues: Seq<IssueModel>,
    selected: Option<IssueId>,
    palette: int,
    i: int,
)
    requires
        0 <= i < shown.len(),
    ensures
        views::rows_for(shown, issues, selected, palette).len() == shown.len(),
        views::rows_for(shown, issues, selected, palette)[i].id == shown[i].id,
        views::rows_for(shown, issues, selected, palette)[i].selected <==> selected == Some(
            shown[i].id,
        ),
{
}

// ---------------------------------------------------------------------------
// The sidebar
// ---------------------------------------------------------------------------

/// The sidebar offers all Issues, then each Status once in the order they are
/// worked through.
pub proof fn the_sidebar_offers_every_view()
    ensures
        views::every_view() == seq![
            View::All,
            View::WithStatus(Status::Todo),
            View::WithStatus(Status::Doing),
            View::WithStatus(Status::Blocked),
            View::WithStatus(Status::Done),
            View::WithStatus(Status::Cancelled),
        ],
{
}

/// A row of the sidebar counts the Issues that its View shows, and is marked
/// exactly where it is the View on show.
pub proof fn a_view_row_counts_what_it_shows(
    row: ViewRow,
    status: Status,
    active: View,
    issues: Seq<IssueModel>,
)
    ensures
        views::is_view_row(row, View::All, active, issues) ==> row.count == issues.len()
            && row.label@ == "All Issues"@ && (row.active <==> active == View::All),
        views::is_view_row(row, View::WithStatus(status), active, issues) ==> row.count
            == issues.filter(|i: IssueModel| i.status == status).len() && row.label@
            == status.name() && (row.active <==> active == View::WithStatus(status)),
{
    lemma_whole(View::All, issues);
    lemma_whole(View::WithStatus(status), issues);
}

proof fn lemma_whole(view: View, issues: Seq<IssueModel>)
    ensures
        crate::domain::narrowing::whole(view).selected(issues).len() == match view {
            View::All => issues.len(),
            View::WithStatus(status) => issues.filter(|i: IssueModel| i.status == status).len(),
        },
    decreases issues.len(),
{
    reveal(Seq::filter);
    if issues.len() > 0 {
        lemma_whole(view, issues.drop_last());
    }
}

/// A row of the Tag list counts the Issues that carry the Tag, and is marked
/// exactly where that Tag is the filter, in whatever case.
pub proof fn a_tag_row_counts_what_carries_it(
    name: Seq<char>,
    active: Option<Seq<char>>,
    issues: Seq<IssueModel>,
    palette: int,
)
    ensures
        ({
            let row = views::tag_row_of(name, active, issues, palette);
            &&& row.tag == name
            &&& row.chip.name == name
            &&& row.chip.key == text::lowercased(name)
            &&& row.count == issues.filter(|i: IssueModel| tag::has_tag(i.tags, name)).len()
            &&& row.active <==> (active matches Some(other) && text::lowercased(other)
                == text::lowercased(name))
        }),
{
}

// ---------------------------------------------------------------------------
// The detail
// ---------------------------------------------------------------------------

/// The detail of an Issue tells what it holds, how many of its parts are neither
/// Done nor Cancelled, each part in order, and when it was created and when it
/// was last updated, told apart.
pub proof fn a_detail_tells_the_issue(
    issue: IssueModel,
    issues: Seq<IssueModel>,
    palette: int,
    i: int,
)
    ensures
        ({
            let shown = views::detail_of(issue, issues, palette);
            let parts = issues.filter(|p: IssueModel| p.parent_id == Some(issue.id));
            &&& shown.id == issue.id
            &&& shown.number == "#"@ + text::decimal(issue.id as int)
            &&& text::trimmed(issue.title).len() > 0 ==> shown.title == issue.title
            &&& shown.status == issue.status
            &&& shown.priority == issue.priority
            &&& shown.outstanding == parts.filter(
                |p: IssueModel| p.status != Status::Done && p.status != Status::Cancelled,
            ).len()
            &&& shown.chips.len() == issue.tags.len()
            &&& 0 <= i < issue.tags.len() ==> shown.chips[i].name == issue.tags[i]
            &&& shown.parts.len() == parts.len()
            &&& 0 <= i < parts.len() ==> {
                &&& shown.parts[i].id == parts[i].id
                &&& shown.parts[i].number == "#"@ + text::decimal(parts[i].id as int)
                &&& text::trimmed(parts[i].title).len() > 0 ==> shown.parts[i].title
                    == parts[i].title
                &&& shown.parts[i].status == parts[i].status.name()
            }
            &&& stands_in(
                "Created "@ + time::minutes_text(
                    issue.created_at.spec_secs(),
                    issue.created_at.spec_nanos(),
                ),
                shown.stamps,
            )
            &&& stands_in(
                "Updated "@ + time::minutes_text(
                    issue.updated_at.spec_secs(),
                    issue.updated_at.spec_nanos(),
                ),
                shown.stamps,
            )
        }),
{
    let shown = views::detail_of(issue, issues, palette);
    lemma_settled(issues.filter(|p: IssueModel| p.parent_id == Some(issue.id)));
    let created = "Created "@ + time::minutes_text(
        issue.created_at.spec_secs(),
        issue.created_at.spec_nanos(),
    );
    let moment = time::minutes_text(issue.updated_at.spec_secs(), issue.updated_at.spec_nanos());
    let updated = "Updated "@ + moment;
    let none = Seq::<char>::empty();
    reveal_strlit(" \u{b7} Updated ");
    reveal_strlit(" \u{b7} ");
    reveal_strlit("Updated ");
    assert(" \u{b7} Updated "@ =~= " \u{b7} "@ + "Updated "@);
    assert(shown.stamps =~= none + created + (" \u{b7} Updated "@ + moment));
    assert(shown.stamps =~= (created + " \u{b7} "@) + updated + none);
}

/// A Status button carries its Status and its name, is marked where it is the
/// Issue's, and says what stands in the way exactly where Done has outstanding
/// parts.
pub proof fn a_status_button_tells_its_status(
    button: StatusButton,
    status: Status,
    active: Status,
    outstanding: int,
)
    requires
        views::is_status_button(button, status, active, outstanding),
    ensures
        button.status == status,
        Status::named(button.label@) == Some(status),
        button.active <==> status == active,
        button.blocked is Some <==> status == Status::Done && outstanding > 0,
        button.blocked matches Some(why) ==> why@ == text::decimal(outstanding)
            + " sub-issue(s) still outstanding"@,
{
    crate::domain::kinds::a_status_reads_back(status);
}

/// The question before an erasure names the Issue.
pub proof fn an_erasure_names_what_goes(id: IssueId, title: Seq<char>, parts: int)
    ensures
        stands_in(
            "#"@ + text::decimal(id as int) + " \u{201c}"@ + title + "\u{201d} will be erased."@,
            views::erasing_text(id, title, parts),
        ),
        parts > 1 ==> stands_in(
            " Its "@ + text::decimal(parts)
                + " sub-issues will be kept, no longer part of anything."@,
            views::erasing_text(id, title, parts),
        ),
        parts == 1 ==> stands_in(
            " Its 1 sub-issue will be kept, no longer part of anything."@,
            views::erasing_text(id, title, parts),
        ),
{
    let whole = views::erasing_text(id, title, parts);
    let told = "#"@ + text::decimal(id as int) + " \u{201c}"@ + title
        + "\u{201d} will be erased."@;
    let kept = crate::cli::session::released(parts);
    let last = " To abandon it but keep the record, set its status to Cancelled instead."@;
    assert(whole =~= Seq::<char>::empty() + told + (kept + last));
    assert(whole =~= told + kept + last);
}

// ---------------------------------------------------------------------------
// Pickers and inputs
// ---------------------------------------------------------------------------

/// A picker entry is an Issue's number and title, and where the Issue is part of
/// another, whose.
pub proof fn a_label_tells_the_issue(issue: IssueModel, issues: Seq<IssueModel>)
    ensures
        text::trimmed(issue.title).len() > 0 ==> tracker::label_of(issue) == "#"@ + text::decimal(
            issue.id as int,
        ) + " "@ + issue.title,
        issue.parent_id is None ==> tracker::annotated_label_of(issue, issues) == tracker::label_of(
            issue,
        ),
        issue.parent_id matches Some(id) ==> (model::found(issues, id) matches Some(parent)
            ==> tracker::annotated_label_of(issue, issues) == tracker::label_of(issue)
            + " \u{b7} under "@ + ("#"@ + text::decimal(parent.id as int))),
{
}

/// What is offered as a part is what may become one and is not one already, what
/// is offered as a parent is what may take the Issue in, and what stands there is
/// what the Issue is part of.
pub proof fn the_pickers_offer_what_is_allowed(
    r: Relations,
    own: IssueModel,
    issues: Seq<IssueModel>,
    other: IssueModel,
)
    requires
        tracker::are_relations(r, own.id, issues),
        model::found(issues, own.id) == Some(own),
        issues.contains(other),
    ensures
        other.parent_id != Some(own.id) && model::why_not_attach(issues, other.id, own.id) is None
            ==> text::texts(r.children@).contains(tracker::annotated_label_of(other, issues)),
        model::why_not_attach(issues, own.id, other.id) is None ==> text::texts(
            r.parents@,
        ).contains(tracker::label_of(other)),
        own.parent_id is None ==> r.current is None,
        own.parent_id matches Some(id) ==> (model::found(issues, id) matches Some(holder)
            ==> r.current is Some && r.current->0@ == tracker::label_of(holder)),
{
    let parts = issues.filter(
        |i: IssueModel|
            i.parent_id != Some(own.id) && model::why_not_attach(issues, i.id, own.id) is None,
    );
    let holders = issues.filter(
        |i: IssueModel| model::why_not_attach(issues, own.id, i.id) is None,
    );
    crate::projection::laws::lemma_filter_contents(
        issues,
        |i: IssueModel|
            i.parent_id != Some(own.id) && model::why_not_attach(issues, i.id, own.id) is None,
    );
    crate::projection::laws::lemma_filter_contents(
        issues,
        |i: IssueModel| model::why_not_attach(issues, own.id, i.id) is None,
    );
    if other.parent_id != Some(own.id) && model::why_not_attach(issues, other.id, own.id) is None {
        assert(parts.contains(other));
        let k = choose|k: int| 0 <= k < parts.len() && parts[k] == other;
        assert(text::texts(r.children@)[k] == tracker::annotated_label_of(other, issues));
    }
    if model::why_not_attach(issues, own.id, other.id) is None {
        assert(holders.contains(other));
        let k = choose|k: int| 0 <= k < holders.len() && holders[k] == other;
        assert(text::texts(r.parents@)[k] == tracker::label_of(other));
    }
}

/// The inputs hold the title, the body and the Size of the Issue on show, and
/// nothing where there is none.
pub proof fn the_inputs_hold_the_issue(issue: IssueModel)
    ensures
        tracker::inputs_of(Some(issue)).title == issue.title,
        tracker::inputs_of(Some(issue)).body == issue.body,
        issue.size is None ==> tracker::inputs_of(Some(issue)).size.len() == 0,
        issue.size matches Some(n) ==> tracker::inputs_of(Some(issue)).size == text::decimal(
            n as int,
        ),
        tracker::inputs_of(None).title.len() == 0,
        tracker::inputs_of(None).body.len() == 0,
        tracker::inputs_of(None).size.len() == 0,
{
}

/// What is typed names the title and the body as typed, takes the Size away
/// where its input is blank, sets it where that is a number up to 255 and leaves
/// it alone otherwise. Nothing else is named.
pub proof fn what_is_typed_is_what_changes(typed: InputsModel)
    ensures
        ({
            let patch = tracker::edits_of(typed);
            &&& patch.title == Some(typed.title)
            &&& patch.body == Some(typed.body)
            &&& patch.status is None
            &&& patch.priority is None
            &&& patch.tags is None
            &&& text::trimmed(typed.size).len() == 0 ==> patch.size == Some(None::<u8>)
            &&& text::trimmed(typed.size).len() > 0 ==> match text::number(
                text::trimmed(typed.size),
                255,
            ) {
                Some(n) => patch.size == Some(Some(n as u8)),
                None => patch.size is None,
            }
        }),
{
}

/// The Tags that are taken from an editor are exactly those that could be Tags,
/// without the white space round them, in their order.
pub proof fn the_editor_keeps_what_could_be_tags(values: Seq<Seq<char>>, i: int)
    requires
        0 <= i < values.len(),
    ensures
        tag::usable_name(text::trimmed(values[i])) ==> tracker::usable_tags(values).contains(
            text::trimmed(values[i]),
        ),
        tracker::usable_tags(values).len() == values.filter(
            |v: Seq<char>| tag::usable_name(text::trimmed(v)),
        ).len(),
        forall|k: int|
            0 <= k < tracker::usable_tags(values).len() ==> exists|j: int|
                0 <= j < values.len() && #[trigger] tracker::usable_tags(values)[k]
                    == text::trimmed(#[trigger] values[j]),
    decreases values.len(),
{
    reveal(Seq::filter);
    let rest = values.drop_last();
    if rest.len() > 0 {
        let at = if i < rest.len() {
            i
        } else {
            0
        };
        the_editor_keeps_what_could_be_tags(rest, at);
    } else {
        assert(rest.filter(|v: Seq<char>| tag::usable_name(text::trimmed(v))).len() == 0);
    }
    let kept = tracker::usable_tags(values);
    let before = tracker::usable_tags(rest);
    if i < rest.len() {
        assert(rest[i] == values[i]);
        if tag::usable_name(text::trimmed(values[i])) {
            let k = choose|k: int| 0 <= k < before.len() && before[k] == text::trimmed(values[i]);
            assert(kept[k] == before[k]);
        }
    } else if tag::usable_name(text::trimmed(values[i])) {
        assert(kept[kept.len() - 1] == text::trimmed(values[i]));
    }
    assert forall|k: int| 0 <= k < kept.len() implies exists|j: int|
        0 <= j < values.len() && #[trigger] kept[k] == text::trimmed(#[trigger] values[j]) by {
        if k < before.len() {
            assert(kept[k] == before[k]);
            let j = choose|j: int|
                0 <= j < rest.len() && before[k] == text::trimmed(#[trigger] rest[j]);
            assert(values[j] == rest[j]);
        } else {
            assert(kept[k] == text::trimmed(values[values.len() - 1]));
        }
    }
}

/// What is about to be saved belongs to the Issue on show, and once it is saved
/// nothing is waiting. Looking elsewhere changes nothing of what was set.
pub proof fn a_save_belongs_to_the_issue_on_show(state: TrackerModel, working: WorkingModel)
    ensures
        state.saving is Some ==> state.flushed() == state.working.selected,
        state.saving is None ==> state.flushed() is None,
        state.saved().saving is None,
        state.saved().working == state.working,
        state.saved().preferences == state.preferences,
        state.saved().creating == state.creating,
        state.looking(working).working == working,
        state.looking(working).remembering,
        state.looking(working).preferences == state.preferences,
        state.looking(working).creating == state.creating,
        state.looking(working).saving == state.saving,
{
}

// ---------------------------------------------------------------------------
// Working state
// ---------------------------------------------------------------------------

/// What is on show is what the View, the Tag and the typed text leave.
pub proof fn the_window_narrows_by_what_it_holds(state: WorkingModel)
    ensures
        state.narrowing().view == state.view,
        state.narrowing().tag == state.tag,
        state.narrowing().title == Some(state.filter),
        state.narrowing().parent is None,
{
}

/// Settling drops a Tag filter only where no Issue carries the Tag, keeps a
/// selection that is on show, and else selects the first that is. Nothing else
/// changes.
pub proof fn settling_keeps_what_still_makes_sense(state: WorkingModel, issues: Seq<IssueModel>)
    ensures
        ({
            let next = state.settled(issues);
            let shown = next.shown(issues);
            &&& next.view == state.view
            &&& next.filter == state.filter
            &&& state.tag is None ==> next.tag is None
            &&& state.tag matches Some(name) ==> if exists|i: int|
                0 <= i < issues.len() && tag::has_tag((#[trigger] issues[i]).tags, name) {
                next.tag == state.tag
            } else {
                next.tag is None
            }
            &&& (state.selected is Some && exists|i: int|
                0 <= i < shown.len() && (#[trigger] shown[i]).id == state.selected->0)
                ==> next.selected == state.selected
            &&& !(state.selected is Some && exists|i: int|
                0 <= i < shown.len() && (#[trigger] shown[i]).id == state.selected->0)
                && shown.len() > 0 ==> next.selected == Some(shown[0].id)
            &&& shown.len() == 0 ==> next.selected is None
        }),
{
    let pruned = state.pruned(issues);
    let next = state.settled(issues);
    assert(next.narrowing() == pruned.narrowing());
    let shown = next.shown(issues);
    let visible = working_state::ids(shown);
    if let Some(id) = state.selected {
        if visible.contains(id) {
            let k = choose|k: int| 0 <= k < visible.len() && visible[k] == id;
            assert(shown[k].id == id);
        }
        if exists|i: int| 0 <= i < shown.len() && (#[trigger] shown[i]).id == id {
            let k = choose|i: int| 0 <= i < shown.len() && (#[trigger] shown[i]).id == id;
            assert(visible[k] == id);
        }
    }
}

/// Moving the selection by some rows goes that many rows down the list, or up it
/// where the number is negative, and stops at the ends.
pub proof fn moving_goes_that_many_rows(
    state: WorkingModel,
    issues: Seq<IssueModel>,
    from: int,
    delta: int,
)
    requires
        0 <= from < state.shown(issues).len(),
        state.selected == Some(state.shown(issues)[from].id),
        forall|k: int|
            0 <= k < from ==> (#[trigger] state.shown(issues)[k]).id != state.shown(
                issues,
            )[from].id,
    ensures
        ({
            let shown = state.shown(issues);
            let next = state.stepped(delta, issues);
            &&& 0 <= from + delta < shown.len() ==> next.selected == Some(shown[from + delta].id)
            &&& from + delta < 0 ==> next.selected == Some(shown[0].id)
            &&& from + delta >= shown.len() ==> next.selected == Some(shown[shown.len() - 1].id)
            &&& next.view == state.view
            &&& next.filter == state.filter
            &&& next.tag == state.tag
        }),
{
    let shown = state.shown(issues);
    let visible = working_state::ids(shown);
    let id = shown[from].id;
    assert(visible[from] == id);
    assert(visible.contains(id));
    visible.index_of_first_ensures(id);
    let at = visible.index_of_first(id)->Some_0;
    if at < from {
        assert(shown[at].id == id);
    }
    assert(at == from);
}

/// Where what is selected is not on show, moving selects the first that is.
pub proof fn moving_from_nowhere_goes_to_the_first(
    state: WorkingModel,
    issues: Seq<IssueModel>,
    delta: int,
)
    requires
        state.shown(issues).len() > 0,
        state.selected matches Some(id) ==> forall|k: int|
            0 <= k < state.shown(issues).len() ==> (#[trigger] state.shown(issues)[k]).id != id,
    ensures
        state.stepped(delta, issues).selected == Some(state.shown(issues)[0].id),
{
    let shown = state.shown(issues);
    let visible = working_state::ids(shown);
    if let Some(id) = state.selected {
        if visible.contains(id) {
            let k = choose|k: int| 0 <= k < visible.len() && visible[k] == id;
            assert(shown[k].id == id);
        }
    }
}

/// Picking a Tag makes it the filter, unless it is the filter already, in
/// whatever case: then there is none. Nothing else changes.
pub proof fn picking_a_tag_filters_by_it(state: WorkingModel, name: Seq<char>)
    ensures
        state.toggled(name).view == state.view,
        state.toggled(name).selected == state.selected,
        state.toggled(name).filter == state.filter,
        (state.tag is Some && text::lowercased(state.tag->0) == text::lowercased(name))
            ==> state.toggled(name).tag is None,
        !(state.tag is Some && text::lowercased(state.tag->0) == text::lowercased(name))
            ==> state.toggled(name).tag == Some(name),
{
}

/// A working state is stored under these names, each with what it is called.
pub proof fn a_working_state_is_stored_under_its_names(state: WorkingModel)
    ensures
        working_state::written(state).len() == 4,
        working_state::written(state)[0].0 == "ui.view"@,
        View::named(working_state::written(state)[0].1) == Some(state.view),
        working_state::written(state)[1].0 == "ui.selected"@,
        state.selected is None ==> working_state::written(state)[1].1.len() == 0,
        state.selected matches Some(id) ==> working_state::written(state)[1].1 == text::decimal(
            id as int,
        ),
        working_state::written(state)[2] == ("ui.filter"@, state.filter),
        working_state::written(state)[3].0 == "ui.tag"@,
        state.tag is None ==> working_state::written(state)[3].1.len() == 0,
        state.tag matches Some(name) ==> working_state::written(state)[3].1 == name,
{
    crate::domain::view::a_view_reads_back(state.view);
}

/// What is restored is what was stored, and where something stored means nothing
/// any more, the window starts afresh there.
pub proof fn what_is_stored_is_restored(stored: StoredModel)
    ensures
        ({
            let state = working_state::recalled(stored);
            &&& stored.filter is None ==> state.filter.len() == 0
            &&& stored.filter matches Some(raw) ==> state.filter == raw
            &&& stored.view is None ==> state.view == View::All
            &&& stored.view matches Some(raw) ==> match View::named(raw) {
                Some(view) => state.view == view,
                None => state.view == View::All,
            }
            &&& stored.selected is None ==> state.selected is None
            &&& stored.selected matches Some(raw) ==> match text::integer(raw) {
                Some(id) => state.selected == Some(id as i64),
                None => state.selected is None,
            }
            &&& stored.tag is None ==> state.tag is None
            &&& stored.tag matches Some(raw) ==> if tag::usable_name(text::trimmed(raw)) {
                state.tag == Some(text::trimmed(raw))
            } else {
                state.tag is None
            }
        }),
{
}

// ---------------------------------------------------------------------------
// Preferences and themes
// ---------------------------------------------------------------------------

/// A preference is stored under its name: whether the sidebar is hidden always,
/// a theme where one was chosen.
pub proof fn preferences_are_stored_under_their_names(chosen: PreferencesModel)
    ensures
        ({
            let pairs = preferences::written(chosen);
            &&& chosen.sidebar_hidden ==> pairs.contains(("sidebar.hidden"@, "true"@))
            &&& !chosen.sidebar_hidden ==> pairs.contains(("sidebar.hidden"@, "false"@))
            &&& chosen.light matches Some(name) ==> pairs.contains(("theme.light"@, name))
            &&& chosen.dark matches Some(name) ==> pairs.contains(("theme.dark"@, name))
            &&& pairs.len() == 1 + (if chosen.light is Some {
                1int
            } else {
                0int
            }) + (if chosen.dark is Some {
                1int
            } else {
                0int
            })
        }),
{
    let pairs = preferences::written(chosen);
    assert(pairs.contains(pairs[0]));
    if pairs.len() > 1 {
        assert(pairs.contains(pairs[1]));
    }
    if pairs.len() > 2 {
        assert(pairs.contains(pairs[2]));
    }
}

/// A preference that was never stored is what it was out of the box: no theme
/// chosen, the sidebar on show. Only `true` hides it.
pub proof fn preferences_are_restored(
    light: Option<Seq<char>>,
    dark: Option<Seq<char>>,
    hidden: Option<Seq<char>>,
)
    ensures
        preferences::recalled(light, dark, hidden).light == light,
        preferences::recalled(light, dark, hidden).dark == dark,
        preferences::recalled(light, dark, hidden).sidebar_hidden <==> hidden == Some("true"@),
{
}

/// Choosing a theme for a mode is choosing it for that mode and no other.
pub proof fn choosing_a_theme_sets_its_mode(chosen: PreferencesModel, name: Seq<char>)
    ensures
        chosen.choosing(ThemeMode::Light, name).light == Some(name),
        chosen.choosing(ThemeMode::Light, name).dark == chosen.dark,
        chosen.choosing(ThemeMode::Dark, name).dark == Some(name),
        chosen.choosing(ThemeMode::Dark, name).light == chosen.light,
        chosen.choosing(ThemeMode::Light, name).sidebar_hidden == chosen.sidebar_hidden,
        chosen.choosing(ThemeMode::Dark, name).sidebar_hidden == chosen.sidebar_hidden,
        chosen.chosen(ThemeMode::Light) == chosen.light,
        chosen.chosen(ThemeMode::Dark) == chosen.dark,
{
}

/// A search leaves exactly the themes whose names hold what was typed, in any
/// case and whatever white space is round it.
pub proof fn a_search_leaves_what_holds_it(
    list: Seq<ThemeModel>,
    query: Seq<char>,
    one: ThemeModel,
)
    ensures
        theme_catalogue::searched(list, query).contains(one) <==> list.contains(one) && (
        text::trimmed(query).len() == 0 || stands_in(
            text::lowercased(text::trimmed(query)),
            text::lowercased(one.name),
        )),
{
    let pass = |c: ThemeModel| theme_catalogue::matches(c, query);
    lemma_filter(list, pass, one);
    let needle = text::lowercased(text::trimmed(query));
    let s = text::lowercased(one.name);
    crate::domain::laws::lemma_stands_in(needle, s);
    if text::trimmed(query).len() == 0 {
        assert(text::trimmed(query) =~= Seq::<char>::empty());
    }
    if needle.len() == 0 {
        assert(s =~= Seq::<char>::empty() + needle + s);
    }
}

proof fn lemma_filter<A>(list: Seq<A>, pass: spec_fn(A) -> bool, one: A)
    ensures
        list.filter(pass).contains(one) <==> list.contains(one) && pass(one),
    decreases list.len(),
{
    reveal(Seq::filter);
    if list.len() > 0 {
        let rest = list.drop_last();
        lemma_filter(rest, pass, one);
        let kept = rest.filter(pass);
        if rest.contains(one) {
            let k = choose|k: int| 0 <= k < rest.len() && rest[k] == one;
            assert(list[k] == one);
        }
        if list.contains(one) {
            let k = choose|k: int| 0 <= k < list.len() && list[k] == one;
            if k < rest.len() {
                assert(rest[k] == one);
            }
        }
        if pass(list.last()) {
            let more = kept.push(list.last());
            assert(more[kept.len() as int] == list.last());
            if kept.contains(one) {
                let k = choose|k: int| 0 <= k < kept.len() && kept[k] == one;
                assert(more[k] == one);
            }
            if more.contains(one) {
                let k = choose|k: int| 0 <= k < more.len() && more[k] == one;
                if k < kept.len() {
                    assert(kept[k] == one);
                }
            }
        }
        if list.last() == one {
            assert(list[list.len() - 1] == one);
        }
    }
}

/// Sorted themes stand in the order of their names, in any case.
pub proof fn themes_stand_in_the_order_of_their_names(list: Seq<ThemeModel>, i: int, j: int)
    requires
        0 <= i < j < list.len(),
    ensures
        theme_catalogue::sorted(list).len() == list.len(),
        !text::precedes(
            text::lowercased(theme_catalogue::sorted(list)[j].name),
            text::lowercased(theme_catalogue::sorted(list)[i].name),
        ),
{
    broadcast use vstd::seq_lib::group_to_multiset_ensures;

    theme_catalogue::a_shelf_is_sorted(list);
    assert(theme_catalogue::sorted(list).to_multiset().len() == list.to_multiset().len());
}

/// The themes of a mode are exactly those that were loaded for it.
pub proof fn a_mode_has_its_themes(
    loaded: Seq<(ThemeMode, ThemeModel)>,
    mode: ThemeMode,
    one: ThemeModel,
)
    ensures
        theme_catalogue::of_mode(loaded, mode).contains(one) <==> loaded.contains((mode, one)),
    decreases loaded.len(),
{
    if loaded.len() > 0 {
        let rest = loaded.drop_last();
        a_mode_has_its_themes(rest, mode, one);
        let kept = theme_catalogue::of_mode(rest, mode);
        let more = theme_catalogue::of_mode(loaded, mode);
        if rest.contains((mode, one)) {
            let k = choose|k: int| 0 <= k < rest.len() && rest[k] == (mode, one);
            assert(loaded[k] == (mode, one));
        }
        if loaded.contains((mode, one)) {
            let k = choose|k: int| 0 <= k < loaded.len() && loaded[k] == (mode, one);
            if k < rest.len() {
                assert(rest[k] == (mode, one));
            }
        }
        if loaded.last().0 == mode {
            assert(more[kept.len() as int] == loaded.last().1);
            if kept.contains(one) {
                let k = choose|k: int| 0 <= k < kept.len() && kept[k] == one;
                assert(more[k] == one);
            }
            if more.contains(one) {
                let k = choose|k: int| 0 <= k < more.len() && more[k] == one;
                if k < kept.len() {
                    assert(kept[k] == one);
                } else {
                    assert(loaded[loaded.len() - 1] == (mode, one));
                }
            }
        }
    }
}

/// The colour of a Tag comes of the 64-bit FNV-1a hash of its key: from the
/// offset basis, each byte is mixed in and the whole multiplied by the prime.
pub proof fn a_colour_is_the_hash_of_the_key(name: Seq<char>, palette: int, bytes: Seq<u8>, next: u8)
    ensures
        tag_colour::hash_of(Seq::empty()) == 14_695_981_039_346_656_037u64,
        tag_colour::hash_of(bytes.push(next)) == (tag_colour::hash_of(bytes)
            ^ (next as u64)).wrapping_mul(1_099_511_628_211u64),
        tag_colour::colour_of(name, palette) == tag_colour::hash_of(
            vstd::utf8::encode_utf8(text::lowercased(name)),
        ) as int % palette,
{
    assert(bytes.push(next).drop_last() =~= bytes);
}

} // verus!
