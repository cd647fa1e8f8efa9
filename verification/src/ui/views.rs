//! What the three columns show: the sidebar, the list and the detail pane, as
//! the texts and choices they are drawn from.
//!
//! Drawing them is the window's business. What is in them, in which order, and
//! which controls are offered, is decided here.

use vstd::prelude::*;
use vstd::view::View as _;

use crate::api::http;
use crate::domain::issue;
use crate::domain::issue::{Issue, IssueModel};
use crate::domain::kinds::{IssueId, Priority, Status};
use crate::domain::narrowing;
use crate::domain::tag;
use crate::domain::tag::Tag;
use crate::domain::view::View;
use crate::projection;
use crate::projection::laws;
use crate::projection::model;
use crate::projection::Projection;
use crate::text;
use crate::time;
use crate::ui::tag_colour;
use crate::ui::working_state::WorkingState;

verus! {

// ---------------------------------------------------------------------------
// Pieces
// ---------------------------------------------------------------------------

/// How an Issue's number is shown.
pub open spec fn number_text(id: IssueId) -> Seq<char> {
    "#"@ + text::decimal(id as int)
}

/// How an Issue's number is shown.
pub fn number(id: IssueId) -> (r: String)
    ensures
        r@ == number_text(id),
{
    let mut out = "#".to_owned();
    out.push_str(text::decimal_i64(id).as_str());
    out
}

/// A Tag as a chip: its name, its identity, and which colour it has.
#[derive(Debug, PartialEq, Eq)]
pub struct Chip {
    pub name: String,
    pub key: String,
    pub colour: usize,
}

/// A chip, as the contracts speak of it.
#[verifier::ext_equal]
pub struct ChipModel {
    pub name: Seq<char>,
    pub key: Seq<char>,
    pub colour: int,
}

impl vstd::view::View for Chip {
    type V = ChipModel;

    open spec fn view(&self) -> ChipModel {
        ChipModel { name: self.name@, key: self.key@, colour: self.colour as int }
    }
}

/// The chip of a Tag.
pub open spec fn chip_of(name: Seq<char>, palette: int) -> ChipModel {
    ChipModel { name, key: tag::key_of(name), colour: tag_colour::colour_of(name, palette) }
}

/// The models of some chips.
pub open spec fn chips_of(chips: Seq<Chip>) -> Seq<ChipModel> {
    chips.map_values(|c: Chip| c@)
}

/// The chips of some Tags.
pub open spec fn chips_for(names: Seq<Seq<char>>, palette: int) -> Seq<ChipModel> {
    names.map_values(|n: Seq<char>| chip_of(n, palette))
}

/// The chip of a Tag.
fn chip(tag: &Tag, palette: usize) -> (r: Chip)
    requires
        palette > 0,
    ensures
        r@ == chip_of(tag@, palette as int),
{
    Chip { name: tag.to_string(), key: tag.key(), colour: tag_colour::colour_for(tag, palette) }
}

/// The chips of some Tags.
fn chips(tags: &Vec<Tag>, palette: usize) -> (r: Vec<Chip>)
    requires
        palette > 0,
    ensures
        chips_of(r@) == chips_for(tag::names(tags@), palette as int),
{
    let mut out: Vec<Chip> = Vec::new();
    let mut i: usize = 0;
    while i < tags.len()
        invariant
            i <= tags.len(),
            palette > 0,
            out@.len() == i,
            forall|k: int|
                0 <= k < i ==> (#[trigger] out@[k])@ == chip_of(tags@[k]@, palette as int),
        decreases tags.len() - i,
    {
        out.push(chip(&tags[i], palette));
        i += 1;
    }
    assert(chips_of(out@) =~= chips_for(tag::names(tags@), palette as int));
    out
}

/// How far the parts of an Issue have come: `2/3`.
pub open spec fn progress_text(progress: Option<(nat, nat)>) -> Option<Seq<char>> {
    match progress {
        Some((settled, total)) => Some(
            text::decimal(settled as int) + "/"@ + text::decimal(total as int),
        ),
        None => None,
    }
}

fn progress_label(progress: Option<(usize, usize)>) -> (r: Option<String>)
    ensures
        http::optional_text(r) == progress_text(
            match progress {
                Some((settled, total)) => Some((settled as nat, total as nat)),
                None => None,
            },
        ),
{
    match progress {
        Some((settled, total)) => {
            let mut out = text::decimal_u64(settled as u64);
            out.push_str("/");
            out.push_str(text::decimal_u64(total as u64).as_str());
            Some(out)
        },
        None => None,
    }
}

// ---------------------------------------------------------------------------
// The sidebar
// ---------------------------------------------------------------------------

/// One View in the sidebar.
#[derive(Debug, Clone, Copy, PartialEq, Eq)]
pub struct ViewRow {
    pub view: View,
    pub label: &'static str,
    /// How many Issues the View shows, whatever else narrows the list.
    pub count: usize,
    pub active: bool,
}

/// Every View, in the order the sidebar shows them.
pub open spec fn every_view() -> Seq<View> {
    seq![
        View::All,
        View::WithStatus(Status::Todo),
        View::WithStatus(Status::Doing),
        View::WithStatus(Status::Blocked),
        View::WithStatus(Status::Done),
        View::WithStatus(Status::Cancelled),
    ]
}

/// Whether this is the row of a View.
pub open spec fn is_view_row(
    row: ViewRow,
    view: View,
    active: View,
    issues: Seq<IssueModel>,
) -> bool {
    &&& row.view == view
    &&& row.label@ == view.title()
    &&& row.count == narrowing::whole(view).selected(issues).len()
    &&& row.active == (view == active)
}

/// The Views, with how many Issues each shows and which is active.
pub fn view_rows(active: View, issues: &[Issue]) -> (r: Vec<ViewRow>)
    ensures
        r@.len() == every_view().len(),
        forall|i: int|
            0 <= i < r@.len() ==> is_view_row(
                #[trigger] r@[i],
                every_view()[i],
                active,
                issue::models(issues@),
            ),
{
    let views = View::all();
    assert(views@ =~= every_view());
    let mut out: Vec<ViewRow> = Vec::new();
    let mut i: usize = 0;
    while i < 6
        invariant
            i <= 6,
            views@ == every_view(),
            out@.len() == i,
            forall|k: int|
                0 <= k < i ==> is_view_row(
                    #[trigger] out@[k],
                    every_view()[k],
                    active,
                    issue::models(issues@),
                ),
        decreases 6 - i,
    {
        let view = views[i];
        out.push(
            ViewRow {
                view,
                label: view.label(),
                count: WorkingState::count_for(view, issues),
                active: view == active,
            },
        );
        i += 1;
    }
    out
}

/// One item of the View menu: listing the Views there is what keeps navigation
/// reachable when the sidebar is hidden.
#[derive(Debug, Clone, Copy, PartialEq, Eq)]
pub struct ViewItem {
    pub view: View,
    pub label: &'static str,
    pub checked: bool,
}

/// The items of the View menu. The active View carries a checkmark, so the menu
/// has to be rebuilt whenever it changes.
pub fn view_items(active: View) -> (r: Vec<ViewItem>)
    ensures
        r@.len() == every_view().len(),
        forall|i: int|
            0 <= i < r@.len() ==> (#[trigger] r@[i]).view == every_view()[i] && r@[i].label@
                == every_view()[i].title() && r@[i].checked == (every_view()[i] == active),
{
    let views = View::all();
    assert(views@ =~= every_view());
    let mut out: Vec<ViewItem> = Vec::new();
    let mut i: usize = 0;
    while i < 6
        invariant
            i <= 6,
            views@ == every_view(),
            out@.len() == i,
            forall|k: int|
                0 <= k < i ==> (#[trigger] out@[k]).view == every_view()[k] && out@[k].label@
                    == every_view()[k].title() && out@[k].checked == (every_view()[k] == active),
        decreases 6 - i,
    {
        let view = views[i];
        out.push(ViewItem { view, label: view.label(), checked: view == active });
        i += 1;
    }
    out
}

/// One Tag in the sidebar.
#[derive(Debug)]
pub struct TagRow {
    pub tag: Tag,
    pub chip: Chip,
    /// How many Issues carry the Tag, whatever narrows the list.
    pub count: usize,
    pub active: bool,
}

/// One Tag in the sidebar, as the contracts speak of it.
#[verifier::ext_equal]
pub struct TagRowModel {
    pub tag: Seq<char>,
    pub chip: ChipModel,
    pub count: int,
    pub active: bool,
}

impl vstd::view::View for TagRow {
    type V = TagRowModel;

    open spec fn view(&self) -> TagRowModel {
        TagRowModel {
            tag: self.tag@,
            chip: self.chip@,
            count: self.count as int,
            active: self.active,
        }
    }
}

/// The row of a Tag.
pub open spec fn tag_row_of(
    name: Seq<char>,
    active: Option<Seq<char>>,
    issues: Seq<IssueModel>,
    palette: int,
) -> TagRowModel {
    TagRowModel {
        tag: name,
        chip: chip_of(name, palette),
        count: model::with_tag(issues, name).len() as int,
        active: match active {
            Some(active) => tag::key_of(active) == tag::key_of(name),
            None => false,
        },
    }
}

/// The models of some Tag rows.
pub open spec fn tag_rows_of(rows: Seq<TagRow>) -> Seq<TagRowModel> {
    rows.map_values(|r: TagRow| r@)
}

/// The Tag list: every Tag some Issue carries, alphabetically.
///
/// Alphabetical rather than by count so a Tag keeps its place: a list that
/// reshuffles as counts drift is one you can never learn.
pub fn tag_rows(working: &WorkingState, projection: &Projection, palette: usize) -> (r: Vec<TagRow>)
    requires
        palette > 0,
    ensures
        tag_rows_of(r@) == model::vocabulary(projection@).map_values(
            |n: Seq<char>| tag_row_of(n, working.model().tag, projection@, palette as int),
        ),
{
    let in_use = projection.tags_in_use();
    let tags = in_use.as_slice();
    let ghost all = model::vocabulary(projection@);
    let ghost want = all.map_values(
        |n: Seq<char>| tag_row_of(n, working.model().tag, projection@, palette as int),
    );
    let mut out: Vec<TagRow> = Vec::new();
    let mut i: usize = 0;
    while i < tags.len()
        invariant
            i <= tags.len(),
            palette > 0,
            out@.len() == i,
            all == tag::names(tags@),
            want == all.map_values(
                |n: Seq<char>| tag_row_of(n, working.model().tag, projection@, palette as int),
            ),
            forall|k: int| 0 <= k < i ==> (#[trigger] out@[k])@ == want[k],
        decreases tags.len() - i,
    {
        let active = match working.tag() {
            Some(active) => active.is(&tags[i]),
            None => false,
        };
        let row = TagRow {
            tag: tags[i].clone(),
            chip: chip(&tags[i], palette),
            count: projection.count_with_tag(&tags[i]),
            active,
        };
        assert(all[i as int] == tags@[i as int]@);
        assert(row@ =~= want[i as int]);
        out.push(row);
        i += 1;
    }
    assert(tag_rows_of(out@) =~= want);
    out
}

// ---------------------------------------------------------------------------
// The list
// ---------------------------------------------------------------------------

/// One list row's worth of an Issue: never its body, which a row does not show.
#[derive(Debug)]
pub struct Row {
    pub id: IssueId,
    pub number: String,
    pub title: String,
    pub status: &'static str,
    /// Shown only where there is one.
    pub priority: Option<String>,
    /// Settled over total for this Issue's own parts, when it has any: why the
    /// Done button is greyed out, visible without opening the Issue.
    pub progress: Option<String>,
    /// Set when this Issue is part of another one.
    pub parent: Option<String>,
    pub chips: Vec<Chip>,
    pub selected: bool,
}

/// One list row, as the contracts speak of it.
#[verifier::ext_equal]
pub struct RowModel {
    pub id: IssueId,
    pub number: Seq<char>,
    pub title: Seq<char>,
    pub status: Seq<char>,
    pub priority: Option<Seq<char>>,
    pub progress: Option<Seq<char>>,
    pub parent: Option<Seq<char>>,
    pub chips: Seq<ChipModel>,
    pub selected: bool,
}

impl vstd::view::View for Row {
    type V = RowModel;

    open spec fn view(&self) -> RowModel {
        RowModel {
            id: self.id,
            number: self.number@,
            title: self.title@,
            status: self.status@,
            priority: http::optional_text(self.priority),
            progress: http::optional_text(self.progress),
            parent: http::optional_text(self.parent),
            chips: chips_of(self.chips@),
            selected: self.selected,
        }
    }
}

/// The row of an Issue.
pub open spec fn row_of(
    issue: IssueModel,
    issues: Seq<IssueModel>,
    selected: Option<IssueId>,
    palette: int,
) -> RowModel {
    RowModel {
        id: issue.id,
        number: number_text(issue.id),
        title: issue::shown_title(issue.title),
        status: issue.status.name(),
        priority: if issue.priority == Priority::Unset {
            None
        } else {
            Some(issue.priority.name())
        },
        progress: progress_text(model::progress(model::parts(issues, issue.id))),
        parent: match issue.parent_id {
            Some(parent) => Some("\u{21b3} "@ + number_text(parent)),
            None => None,
        },
        chips: chips_for(issue.tags, palette),
        selected: selected == Some(issue.id),
    }
}

/// The models of some rows.
pub open spec fn rows_of(rows: Seq<Row>) -> Seq<RowModel> {
    rows.map_values(|r: Row| r@)
}

/// The rows of a list of Issues.
pub open spec fn rows_for(
    shown: Seq<IssueModel>,
    issues: Seq<IssueModel>,
    selected: Option<IssueId>,
    palette: int,
) -> Seq<RowModel> {
    shown.map_values(|i: IssueModel| row_of(i, issues, selected, palette))
}

fn row(
    issue: &Issue,
    progress: Option<(usize, usize)>,
    selected: Option<IssueId>,
    palette: usize,
    Ghost(issues): Ghost<Seq<IssueModel>>,
) -> (r: Row)
    requires
        palette > 0,
        projection::is_progress(progress, model::parts(issues, issue@.id)),
    ensures
        r@ == row_of(issue@, issues, selected, palette as int),
{
    let priority = if issue.priority == Priority::Unset {
        None
    } else {
        Some(issue.priority.to_string())
    };
    let parent = match issue.parent_id {
        Some(parent) => {
            let mut out = "\u{21b3} ".to_owned();
            out.push_str(number(parent).as_str());
            Some(out)
        },
        None => None,
    };
    Row {
        id: issue.id,
        number: number(issue.id),
        title: issue.display_title().to_owned(),
        status: issue.status.label(),
        priority,
        progress: progress_label(progress),
        parent,
        chips: chips(&issue.tags, palette),
        selected: selected == Some(issue.id),
    }
}

/// The rows the list shows, in display order.
pub fn list_rows(working: &WorkingState, projection: &Projection, palette: usize) -> (r: Vec<Row>)
    requires
        palette > 0,
    ensures
        rows_of(r@) == rows_for(
            working.model().shown(projection@),
            projection@,
            working.model().selected,
            palette as int,
        ),
{
    let visible = working.visible(projection.issues());
    // Asked of every row at once, so that a list is one pass over the Issues.
    let parts = projection.sub_issue_index();
    let ghost shown = working.model().shown(projection@);
    let ghost want = rows_for(shown, projection@, working.model().selected, palette as int);
    let mut out: Vec<Row> = Vec::new();
    let mut i: usize = 0;
    while i < visible.len()
        invariant
            i <= visible.len(),
            palette > 0,
            out@.len() == i,
            shown == issue::models_of(visible@),
            want == rows_for(shown, projection@, working.model().selected, palette as int),
            forall|id: IssueId| #[trigger] parts.parts_of(id) == model::parts(projection@, id),
            forall|k: int| 0 <= k < i ==> (#[trigger] out@[k])@ == want[k],
        decreases visible.len() - i,
    {
        assert(shown[i as int] == visible@[i as int]@);
        let progress = parts.settled_progress(visible[i].id);
        out.push(row(visible[i], progress, working.selected(), palette, Ghost(projection@)));
        i += 1;
    }
    assert(rows_of(out@) =~= want);
    out
}

/// Whether the list says that there is nothing in it: not while a new Issue is
/// being typed into it.
pub fn list_is_blank(rows: usize, creating: bool) -> (r: bool)
    ensures
        r == (rows == 0 && !creating),
{
    rows == 0 && !creating
}

// ---------------------------------------------------------------------------
// The detail pane
// ---------------------------------------------------------------------------

/// One Status button.
#[derive(Debug)]
pub struct StatusButton {
    pub status: Status,
    pub label: &'static str,
    pub active: bool,
    /// Why the button does not work, where it does not: a control that refuses
    /// to work without saying why is worse than one that rejects you
    /// afterwards.
    pub blocked: Option<String>,
}

/// Why Done is not to be had yet.
pub open spec fn outstanding_text(outstanding: int) -> Seq<char> {
    text::decimal(outstanding) + " sub-issue(s) still outstanding"@
}

/// Whether this is the button of a Status, for an Issue with this many
/// outstanding parts.
pub open spec fn is_status_button(
    button: StatusButton,
    status: Status,
    active: Status,
    outstanding: int,
) -> bool {
    &&& button.status == status
    &&& button.label@ == status.name()
    &&& button.active == (status == active)
    &&& http::optional_text(button.blocked) == if status == Status::Done && outstanding > 0 {
        Some(outstanding_text(outstanding))
    } else {
        None
    }
}

/// The Status buttons, with Done blocked while parts are outstanding.
pub fn status_buttons(active: Status, outstanding: usize) -> (r: Vec<StatusButton>)
    ensures
        r@.len() == 5,
        forall|i: int|
            0 <= i < 5 ==> is_status_button(
                #[trigger] r@[i],
                Status::ALL[i],
                active,
                outstanding as int,
            ),
{
    let mut out: Vec<StatusButton> = Vec::new();
    let mut i: usize = 0;
    while i < 5
        invariant
            i <= 5,
            out@.len() == i,
            forall|k: int|
                0 <= k < i ==> is_status_button(
                    #[trigger] out@[k],
                    Status::ALL[k],
                    active,
                    outstanding as int,
                ),
        decreases 5 - i,
    {
        let status = Status::ALL[i];
        let blocked = if status == Status::Done && outstanding > 0 {
            let mut why = text::decimal_u64(outstanding as u64);
            why.push_str(" sub-issue(s) still outstanding");
            Some(why)
        } else {
            None
        };
        out.push(
            StatusButton { status, label: status.label(), active: status == active, blocked },
        );
        i += 1;
    }
    out
}

/// One Priority button.
#[derive(Debug, Clone, Copy, PartialEq, Eq)]
pub struct PriorityButton {
    pub priority: Priority,
    pub label: &'static str,
    pub active: bool,
}

/// The Priority buttons.
pub fn priority_buttons(active: Priority) -> (r: Vec<PriorityButton>)
    ensures
        r@.len() == 5,
        forall|i: int|
            0 <= i < 5 ==> (#[trigger] r@[i]).priority == Priority::ALL[i] && r@[i].label@
                == Priority::ALL[i].name() && r@[i].active == (Priority::ALL[i] == active),
{
    let mut out: Vec<PriorityButton> = Vec::new();
    let mut i: usize = 0;
    while i < 5
        invariant
            i <= 5,
            out@.len() == i,
            forall|k: int|
                0 <= k < i ==> (#[trigger] out@[k]).priority == Priority::ALL[k] && out@[k].label@
                    == Priority::ALL[k].name() && out@[k].active == (Priority::ALL[k] == active),
        decreases 5 - i,
    {
        let priority = Priority::ALL[i];
        out.push(PriorityButton { priority, label: priority.label(), active: priority == active });
        i += 1;
    }
    out
}

/// One part of the Issue on show.
#[derive(Debug)]
pub struct PartRow {
    pub id: IssueId,
    pub number: String,
    pub title: String,
    pub status: &'static str,
}

/// One part, as the contracts speak of it.
#[verifier::ext_equal]
pub struct PartModel {
    pub id: IssueId,
    pub number: Seq<char>,
    pub title: Seq<char>,
    pub status: Seq<char>,
}

impl vstd::view::View for PartRow {
    type V = PartModel;

    open spec fn view(&self) -> PartModel {
        PartModel {
            id: self.id,
            number: self.number@,
            title: self.title@,
            status: self.status@,
        }
    }
}

/// The row of a part.
pub open spec fn part_of(issue: IssueModel) -> PartModel {
    PartModel {
        id: issue.id,
        number: number_text(issue.id),
        title: issue::shown_title(issue.title),
        status: issue.status.name(),
    }
}

/// The models of some parts' rows.
pub open spec fn part_rows_of(rows: Seq<PartRow>) -> Seq<PartModel> {
    rows.map_values(|r: PartRow| r@)
}

fn part_rows(parts: &Vec<&Issue>) -> (r: Vec<PartRow>)
    ensures
        part_rows_of(r@) == issue::models_of(parts@).map_values(|i: IssueModel| part_of(i)),
{
    let ghost all = issue::models_of(parts@);
    let mut out: Vec<PartRow> = Vec::new();
    let mut i: usize = 0;
    while i < parts.len()
        invariant
            i <= parts.len(),
            out@.len() == i,
            all == issue::models_of(parts@),
            forall|k: int| 0 <= k < i ==> (#[trigger] out@[k])@ == part_of(all[k]),
        decreases parts.len() - i,
    {
        assert(all[i as int] == parts@[i as int]@);
        out.push(
            PartRow {
                id: parts[i].id,
                number: number(parts[i].id),
                title: parts[i].display_title().to_owned(),
                status: parts[i].status.label(),
            },
        );
        i += 1;
    }
    assert(part_rows_of(out@) =~= all.map_values(|i: IssueModel| part_of(i)));
    out
}

/// What the detail pane shows of the selected Issue, but for what is being
/// edited in it.
#[derive(Debug)]
pub struct Detail {
    pub id: IssueId,
    pub number: String,
    pub title: String,
    pub status: Status,
    pub priority: Priority,
    pub outstanding: usize,
    pub chips: Vec<Chip>,
    pub parts: Vec<PartRow>,
    /// Parts are offered while this Issue is nobody's part.
    pub offers_parts: bool,
    /// A parent is offered while this Issue has no parts of its own.
    pub offers_parent: bool,
    pub stamps: String,
}

/// What the detail pane shows, as the contracts speak of it.
#[verifier::ext_equal]
pub struct DetailModel {
    pub id: IssueId,
    pub number: Seq<char>,
    pub title: Seq<char>,
    pub status: Status,
    pub priority: Priority,
    pub outstanding: int,
    pub chips: Seq<ChipModel>,
    pub parts: Seq<PartModel>,
    pub offers_parts: bool,
    pub offers_parent: bool,
    pub stamps: Seq<char>,
}

impl vstd::view::View for Detail {
    type V = DetailModel;

    open spec fn view(&self) -> DetailModel {
        DetailModel {
            id: self.id,
            number: self.number@,
            title: self.title@,
            status: self.status,
            priority: self.priority,
            outstanding: self.outstanding as int,
            chips: chips_of(self.chips@),
            parts: part_rows_of(self.parts@),
            offers_parts: self.offers_parts,
            offers_parent: self.offers_parent,
            stamps: self.stamps@,
        }
    }
}

/// What the detail pane shows of an Issue.
///
/// Hierarchy is one level deep, so an Issue is either a parent or a part, never
/// both, which is why only one of the two controls is offered once the Issue has
/// committed to a direction.
pub open spec fn detail_of(issue: IssueModel, issues: Seq<IssueModel>, palette: int) -> DetailModel {
    let parts = model::parts(issues, issue.id);
    DetailModel {
        id: issue.id,
        number: number_text(issue.id),
        title: issue::shown_title(issue.title),
        status: issue.status,
        priority: issue.priority,
        outstanding: model::outstanding_of(parts).len() as int,
        chips: chips_for(issue.tags, palette),
        parts: parts.map_values(|i: IssueModel| part_of(i)),
        offers_parts: match issue.parent_id {
            Some(parent) => model::found(issues, parent) is None,
            None => true,
        },
        offers_parent: parts.len() == 0,
        stamps: "Created "@ + time::minutes_text(
            issue.created_at.spec_secs(),
            issue.created_at.spec_nanos(),
        ) + " \u{b7} Updated "@ + time::minutes_text(
            issue.updated_at.spec_secs(),
            issue.updated_at.spec_nanos(),
        ),
    }
}

/// What the detail pane shows of an Issue, if it is still there.
pub fn detail(id: Option<IssueId>, projection: &Projection, palette: usize) -> (r: Option<Detail>)
    requires
        palette > 0,
    ensures
        match (r, id) {
            (Some(detail), Some(id)) => model::found(projection@, id) matches Some(issue)
                && detail@ == detail_of(issue, projection@, palette as int),
            (None, Some(id)) => model::found(projection@, id) is None,
            (None, None) => true,
            (Some(_), None) => false,
        },
{
    let issue = match id {
        Some(id) => match projection.get(id) {
            Some(issue) => issue,
            None => {
                return None;
            },
        },
        None => {
            return None;
        },
    };
    let parts = projection.sub_issues(issue.id);
    let settled = projection::count_settled(parts.as_slice());
    let offers_parts = match issue.parent_id {
        Some(parent) => projection.get(parent).is_none(),
        None => true,
    };
    let mut stamps = "Created ".to_owned();
    stamps.push_str(issue.created_at.minutes().as_str());
    stamps.push_str(" \u{b7} Updated ");
    stamps.push_str(issue.updated_at.minutes().as_str());
    Some(
        Detail {
            id: issue.id,
            number: number(issue.id),
            title: issue.display_title().to_owned(),
            status: issue.status,
            priority: issue.priority,
            outstanding: parts.len() - settled,
            chips: chips(&issue.tags, palette),
            parts: part_rows(&parts),
            offers_parts,
            offers_parent: parts.len() == 0,
            stamps,
        },
    )
}

/// What is asked before an Issue is erased.
///
/// It says what happens to the parts, because erasing work nobody asked to erase
/// is the one unrecoverable mistake here, and it does not happen.
pub open spec fn erasing_text(id: IssueId, title: Seq<char>, parts: int) -> Seq<char> {
    number_text(id) + " \u{201c}"@ + title + "\u{201d} will be erased."@
        + crate::cli::session::released(parts)
        + " To abandon it but keep the record, set its status to Cancelled instead."@
}

/// What is asked before an Issue is erased.
pub fn erasing(id: IssueId, title: &str, parts: usize) -> (r: String)
    ensures
        r@ == erasing_text(id, title@, parts as int),
{
    let mut out = number(id);
    out.push_str(" \u{201c}");
    out.push_str(title);
    out.push_str("\u{201d} will be erased.");
    out.push_str(crate::cli::session::released_sentence(parts).as_str());
    out.push_str(" To abandon it but keep the record, set its status to Cancelled instead.");
    out
}

// ---------------------------------------------------------------------------
// What the controls promise
// ---------------------------------------------------------------------------

/// The Done button is blocked exactly where marking the Issue Done would be
/// refused.
pub proof fn the_done_button_tells_the_rule(
    issue: IssueModel,
    issues: Seq<IssueModel>,
    palette: int,
    button: StatusButton,
)
    requires
        is_status_button(
            button,
            Status::Done,
            issue.status,
            detail_of(issue, issues, palette).outstanding,
        ),
    ensures
        button.blocked is Some <==> model::why_not_become(issues, issue.id, Status::Done) is Some,
{
}

/// Once an Issue has parts no parent is offered, and once it is a part no parts
/// are. Either way the other control stays.
pub proof fn one_direction_is_offered(
    issue: IssueModel,
    issues: Seq<IssueModel>,
    palette: int,
)
    requires
        laws::distinct_ids(issues),
        laws::one_level(issues),
        issues.contains(issue),
    ensures
        ({
            let shown = detail_of(issue, issues, palette);
            &&& shown.offers_parts <==> issue.parent_id is None
            &&& shown.offers_parent <==> model::parts(issues, issue.id).len() == 0
            &&& shown.offers_parts || shown.offers_parent
        }),
{
    laws::an_issue_is_a_parent_or_a_part(issues, issue);
    laws::lemma_filter_contents(issues, |i: IssueModel| i.parent_id == Some(issue.id));
    let parts = model::parts(issues, issue.id);
    if let Some(parent) = issue.parent_id {
        let p = choose|p: IssueModel| laws::is_holder(issues, p, parent);
        assert(issues.contains(p));
        laws::an_issue_is_found_by_its_id(issues, parent);
        if parts.len() > 0 {
            assert(parts.contains(parts[0]));
            assert(issues.contains(parts[0]));
        }
    }
}

} // verus!
