//! One window: what it is looking at, what is being typed into it, and what has
//! to be written when.
//!
//! The window deliberately does not own the Issues. They outlive it, and the
//! HTTP API writes to them as well; the window settles itself again on every
//! change, whoever made it.
//!
//! Nothing here draws, waits or writes. Each operation says what is to be
//! done about it: whose edits to write now, whether the inputs have to be
//! filled again, what to store.

use std::str::FromStr;

use vstd::prelude::*;
use vstd::view::View as _;

use crate::api::http;
use crate::domain::issue;
use crate::domain::issue::{Issue, IssueModel};
use crate::domain::kinds::IssueId;
use crate::domain::tag;
use crate::domain::tag::Tag;
use crate::domain::view::View;
use crate::projection;
use crate::projection::model;
use crate::projection::{IssuePatch, PatchModel, Projection};
use crate::text;
use crate::ui::preferences;
use crate::ui::preferences::{Preferences, PreferencesModel, ThemeMode};
use crate::ui::theme_catalogue;
use crate::ui::theme_catalogue::ThemeCatalogue;
use crate::ui::views;
use crate::ui::working_state;
use crate::ui::working_state::{WorkingModel, WorkingState};

verus! {

// ---------------------------------------------------------------------------
// Pickers
// ---------------------------------------------------------------------------

/// How an Issue is spelled inside a picker: `#12 Title`.
pub open spec fn label_of(issue: IssueModel) -> Seq<char> {
    views::number_text(issue.id) + " "@ + issue::shown_title(issue.title)
}

/// How an Issue is spelled inside a picker.
pub fn issue_label(issue: &Issue) -> (r: String)
    ensures
        r@ == label_of(issue@),
{
    let mut out = views::number(issue.id);
    out.push_str(" ");
    out.push_str(issue.display_title());
    out
}

/// The same, annotated where the Issue already belongs to someone.
pub open spec fn annotated_label_of(issue: IssueModel, issues: Seq<IssueModel>) -> Seq<char> {
    match issue.parent_id {
        Some(id) => match model::found(issues, id) {
            Some(parent) => label_of(issue) + " \u{b7} under "@ + views::number_text(parent.id),
            None => label_of(issue),
        },
        None => label_of(issue),
    }
}

/// The same, annotated when the Issue already belongs to someone.
///
/// Attaching it would move it, so the row has to say what it would be taken
/// from: without that this would be a silent theft from another Issue.
pub fn issue_label_annotated(issue: &Issue, projection: &Projection) -> (r: String)
    ensures
        r@ == annotated_label_of(issue@, projection@),
{
    let mut out = issue_label(issue);
    if let Some(id) = issue.parent_id {
        if let Some(parent) = projection.get(id) {
            let mut under = " \u{b7} under ".to_owned();
            under.push_str(views::number(parent.id).as_str());
            out.push_str(under.as_str());
            assert(out@ =~= annotated_label_of(issue@, projection@));
        }
    }
    out
}

/// The id that a picker entry is about.
pub open spec fn id_in_label(label: Seq<char>) -> Option<int> {
    if text::starts_with(label, "#"@) {
        text::integer(text::before_first(label.skip(1), ' '))
    } else {
        None
    }
}

/// Recovers the id from a picker entry.
pub fn id_from_label(label: &str) -> (r: Option<IssueId>)
    ensures
        match r {
            Some(id) => id_in_label(label@) == Some(id as int),
            None => id_in_label(label@) is None,
        },
{
    proof {
        reveal_strlit("#");
    }
    match text::strip_prefix(label, "#") {
        Some(rest) => {
            proof {
                text::lemma_first_index(rest@, ' ');
            }
            match text::split_once(rest.as_str(), ' ') {
                Some((head, _)) => text::parse_integer(head.as_str()),
                None => {
                    assert(text::before_first(rest@, ' ') =~= rest@);
                    text::parse_integer(rest.as_str())
                },
            }
        },
        None => None,
    }
}

/// The labels of some Issues.
fn labels(issues: &Vec<&Issue>) -> (r: Vec<String>)
    ensures
        text::texts(r@) == issue::models_of(issues@).map_values(|i: IssueModel| label_of(i)),
{
    let ghost all = issue::models_of(issues@);
    let mut out: Vec<String> = Vec::new();
    let mut i: usize = 0;
    while i < issues.len()
        invariant
            i <= issues.len(),
            out@.len() == i,
            all == issue::models_of(issues@),
            forall|k: int| 0 <= k < i ==> (#[trigger] out@[k])@ == label_of(all[k]),
        decreases issues.len() - i,
    {
        assert(all[i as int] == issues@[i as int]@);
        out.push(issue_label(issues[i]));
        i += 1;
    }
    assert(text::texts(out@) =~= all.map_values(|i: IssueModel| label_of(i)));
    out
}

/// The annotated labels of some Issues.
fn annotated_labels(issues: &Vec<&Issue>, projection: &Projection) -> (r: Vec<String>)
    ensures
        text::texts(r@) == issue::models_of(issues@).map_values(
            |i: IssueModel| annotated_label_of(i, projection@),
        ),
{
    let ghost all = issue::models_of(issues@);
    let mut out: Vec<String> = Vec::new();
    let mut i: usize = 0;
    while i < issues.len()
        invariant
            i <= issues.len(),
            out@.len() == i,
            all == issue::models_of(issues@),
            forall|k: int|
                0 <= k < i ==> (#[trigger] out@[k])@ == annotated_label_of(all[k], projection@),
        decreases issues.len() - i,
    {
        assert(all[i as int] == issues@[i as int]@);
        out.push(issue_label_annotated(issues[i], projection));
        i += 1;
    }
    assert(text::texts(out@) =~= all.map_values(
        |i: IssueModel| annotated_label_of(i, projection@),
    ));
    out
}

/// What the two relationship pickers hold.
#[derive(Debug)]
pub struct Relations {
    /// What could become part of the Issue. Nothing stays selected here: the
    /// control is an action, and what it just attached is no longer a
    /// candidate.
    pub children: Vec<String>,
    /// What the Issue could become part of.
    pub parents: Vec<String>,
    /// What it is part of.
    pub current: Option<String>,
}

/// Whether these are what the pickers hold for an Issue.
pub open spec fn are_relations(r: Relations, id: IssueId, issues: Seq<IssueModel>) -> bool {
    &&& text::texts(r.children@) == issues.filter(
        |i: IssueModel|
            i.parent_id != Some(id) && model::why_not_attach(issues, i.id, id) is None,
    ).map_values(|i: IssueModel| annotated_label_of(i, issues))
    &&& text::texts(r.parents@) == issues.filter(
        |i: IssueModel| model::why_not_attach(issues, id, i.id) is None,
    ).map_values(|i: IssueModel| label_of(i))
    &&& http::optional_text(r.current) == match model::found(issues, id) {
        Some(issue) => match issue.parent_id {
            Some(parent) => match model::found(issues, parent) {
                Some(holder) => Some(label_of(holder)),
                None => None,
            },
            None => None,
        },
        None => None,
    }
}

/// What the relationship pickers hold: what is currently possible.
///
/// Candidates are those the projection would actually accept, so the refusals
/// exist for the API's benefit rather than being reachable by clicking.
pub fn relations(id: IssueId, projection: &Projection) -> (r: Relations)
    ensures
        are_relations(r, id, projection@),
{
    let current = match projection.get(id) {
        Some(issue) => match issue.parent_id {
            Some(parent) => match projection.get(parent) {
                Some(holder) => Some(issue_label(holder)),
                None => None,
            },
            None => None,
        },
        None => None,
    };
    Relations {
        children: annotated_labels(&projection.eligible_sub_issues(id), projection),
        parents: labels(&projection.eligible_parents(id)),
        current,
    }
}

/// The names of some Tags.
fn tag_names(tags: &[Tag]) -> (r: Vec<String>)
    ensures
        text::texts(r@) == tag::names(tags@),
{
    crate::api::wire::tag_strings(tags)
}

/// What the Tag editor holds: every Tag in use, and those of the Issue on show.
pub fn tag_choices(selected: Option<IssueId>, projection: &Projection) -> (r: (
    Vec<String>,
    Vec<String>,
))
    ensures
        text::texts(r.0@) == model::vocabulary(projection@),
        text::texts(r.1@) == match shown(selected, projection@) {
            Some(issue) => issue.tags,
            None => Seq::<Seq<char>>::empty(),
        },
{
    let in_use = projection.tags_in_use();
    let items = tag_names(in_use.as_slice());
    let chosen = match selected_issue(selected, projection) {
        Some(issue) => tag_names(issue.tags.as_slice()),
        None => Vec::new(),
    };
    assert(shown(selected, projection@) is None ==> text::texts(chosen@) =~= Seq::<
        Seq<char>,
    >::empty());
    (items, chosen)
}

/// The Issue on show.
pub open spec fn shown(selected: Option<IssueId>, issues: Seq<IssueModel>) -> Option<IssueModel> {
    match selected {
        Some(id) => model::found(issues, id),
        None => None,
    }
}

fn selected_issue<'a>(selected: Option<IssueId>, projection: &'a Projection) -> (r: Option<
    &'a Issue,
>)
    ensures
        match r {
            Some(issue) => shown(selected, projection@) == Some(issue@),
            None => shown(selected, projection@) is None,
        },
{
    match selected {
        Some(id) => projection.get(id),
        None => None,
    }
}

// ---------------------------------------------------------------------------
// Inputs
// ---------------------------------------------------------------------------

/// What the three inputs show: the title, the body and the Size.
#[derive(Debug, PartialEq, Eq)]
pub struct Inputs {
    pub title: String,
    pub body: String,
    /// A number, or empty for unsized.
    pub size: String,
}

/// What the inputs show, as the contracts speak of it.
#[verifier::ext_equal]
pub struct InputsModel {
    pub title: Seq<char>,
    pub body: Seq<char>,
    pub size: Seq<char>,
}

impl vstd::view::View for Inputs {
    type V = InputsModel;

    open spec fn view(&self) -> InputsModel {
        InputsModel { title: self.title@, body: self.body@, size: self.size@ }
    }
}

/// What the inputs show of an Issue, or of none.
pub open spec fn inputs_of(issue: Option<IssueModel>) -> InputsModel {
    match issue {
        Some(issue) => InputsModel {
            title: issue.title,
            body: issue.body,
            size: match issue.size {
                Some(size) => text::decimal(size as int),
                None => Seq::<char>::empty(),
            },
        },
        None => InputsModel {
            title: Seq::<char>::empty(),
            body: Seq::<char>::empty(),
            size: Seq::<char>::empty(),
        },
    }
}

/// What the inputs show of the Issue on show.
pub fn inputs(selected: Option<IssueId>, projection: &Projection) -> (r: Inputs)
    ensures
        r@ == inputs_of(shown(selected, projection@)),
{
    let r = match selected_issue(selected, projection) {
        Some(issue) => {
            let size = match issue.size {
                Some(size) => text::decimal_u64(size as u64),
                None => String::new(),
            };
            Inputs { title: issue.title.clone(), body: issue.body.clone(), size }
        },
        None => Inputs { title: String::new(), body: String::new(), size: String::new() },
    };
    assert(r@ =~= inputs_of(shown(selected, projection@)));
    r
}

/// Whether an input is filled again.
///
/// A focused input is left alone unless what is shown moved. A write landing
/// mid-sentence must not eat the characters under the cursor; an unfocused
/// input, by contrast, is always filled, because stale text there would be
/// written straight back over that same change on the next keystroke.
pub fn refills(force: bool, focused: bool) -> (r: bool)
    ensures
        r == (force || !focused),
{
    force || !focused
}

/// The change that what was typed asks for.
///
/// Only the title, the body and the Size are named, so this can never clobber a
/// Status or a Tag that something else set in the meantime. An empty Size
/// clears it; a half-typed or over-large number leaves the stored one alone
/// rather than clobbering a good value.
pub open spec fn edits_of(typed: InputsModel) -> PatchModel {
    PatchModel {
        title: Some(typed.title),
        body: Some(typed.body),
        size: if text::trimmed(typed.size).len() == 0 {
            Some(None)
        } else {
            match text::number(text::trimmed(typed.size), 255) {
                Some(size) => Some(Some(size as u8)),
                None => None,
            }
        },
        ..projection::no_change()
    }
}

/// The change that what was typed asks for.
pub fn edits(typed: &Inputs) -> (r: IssuePatch)
    ensures
        r@ == edits_of(typed@),
{
    let patch = IssuePatch::default().title(typed.title.as_str()).body(typed.body.as_str());
    let size = text::trim(typed.size.as_str());
    if text::char_count(size.as_str()) == 0 {
        return patch.clear_size();
    }
    match text::parse_number(size.as_str(), 255) {
        Some(n) => patch.size(n as u8),
        None => patch,
    }
}

/// The Tags that some texts name, those that name none left out.
pub open spec fn usable_tags(values: Seq<Seq<char>>) -> Seq<Seq<char>>
    decreases values.len(),
{
    if values.len() == 0 {
        Seq::<Seq<char>>::empty()
    } else {
        match working_state::tag_named(values.last()) {
            Some(name) => usable_tags(values.drop_last()).push(name),
            None => usable_tags(values.drop_last()),
        }
    }
}

/// The change that a choice of Tags asks for: the whole set replaced.
pub fn tag_selection(values: &Vec<String>) -> (r: IssuePatch)
    ensures
        r@ == model::retagged(usable_tags(text::texts(values@))),
{
    let ghost all = text::texts(values@);
    let mut tags: Vec<Tag> = Vec::new();
    let mut i: usize = 0;
    assert(tag::names(tags@) =~= usable_tags(all.take(0)));
    while i < values.len()
        invariant
            i <= values.len(),
            all == text::texts(values@),
            tag::names(tags@) == usable_tags(all.take(i as int)),
        decreases values.len() - i,
    {
        proof {
            assert(all.take(i + 1).drop_last() =~= all.take(i as int));
            assert(all.take(i + 1).last() == values@[i as int]@);
        }
        if let Ok(tag) = Tag::from_str(values[i].as_str()) {
            let ghost had = tag::names(tags@);
            let ghost one = tag@;
            tags.push(tag);
            assert(tag::names(tags@) =~= had.push(one));
        }
        i += 1;
    }
    assert(all.take(i as int) =~= all);
    IssuePatch::default().tags(tags)
}

/// Whether filing the Issue on show under a parent, or under none, would change
/// anything. Choosing a different parent moves it.
pub fn refiles(issue: Option<&Issue>, parent: Option<IssueId>) -> (r: bool)
    ensures
        r == match issue {
            Some(issue) => issue@.parent_id != parent,
            None => true,
        },
{
    match issue {
        Some(issue) => issue.parent_id != parent,
        None => true,
    }
}

// ---------------------------------------------------------------------------
// The window
// ---------------------------------------------------------------------------

/// One window.
#[derive(Debug)]
pub struct Tracker {
    working: WorkingState,
    preferences: Preferences,
    /// Whether the inline "new issue" row is showing.
    creating: bool,
    /// Whose edits are waiting to be written.
    saving: Option<IssueId>,
    /// Whether the working state is waiting to be written.
    remembering: bool,
}

/// One window, as the contracts speak of it.
#[verifier::ext_equal]
pub struct TrackerModel {
    pub working: WorkingModel,
    pub preferences: PreferencesModel,
    pub creating: bool,
    pub saving: Option<IssueId>,
    pub remembering: bool,
}

impl vstd::view::View for Tracker {
    type V = TrackerModel;

    closed spec fn view(&self) -> TrackerModel {
        TrackerModel {
            working: self.working.model(),
            preferences: self.preferences@,
            creating: self.creating,
            saving: self.saving,
            remembering: self.remembering,
        }
    }
}

impl TrackerModel {
    /// Whose edits a flush writes: those of the selected Issue, where any are
    /// waiting.
    pub open spec fn flushed(self) -> Option<IssueId> {
        if self.saving is Some {
            self.working.selected
        } else {
            None
        }
    }

    /// With nothing waiting to be saved.
    pub open spec fn saved(self) -> TrackerModel {
        TrackerModel { saving: None, ..self }
    }

    /// Looking at something else, which is to be remembered.
    pub open spec fn looking(self, working: WorkingModel) -> TrackerModel {
        TrackerModel { working, remembering: true, ..self }
    }
}

/// What selecting another Issue asks for.
#[derive(Debug, Clone, Copy, PartialEq, Eq, Structural)]
pub struct Moved {
    /// Whose edits to write first: what was typed belongs to the Issue being
    /// left.
    pub flushed: Option<IssueId>,
    /// Whether the inputs no longer describe what they are showing.
    pub force: bool,
}

/// What typing a title and pressing enter comes to.
#[derive(Debug, PartialEq, Eq)]
pub enum Typed {
    /// Nothing was typed: back to the list.
    Cancelled,
    /// File an Issue with this title.
    Create(String),
}

/// What escape comes to.
#[derive(Debug, Clone, Copy, PartialEq, Eq, Structural)]
pub enum Escaped {
    /// The new Issue is not to be.
    Cancelled,
    /// Back to the list, once these edits are written.
    Flushed(Option<IssueId>),
}

impl Tracker {
    /// A window as it opens.
    pub fn new(working: WorkingState, preferences: Preferences) -> (r: Tracker)
        ensures
            r@ == (TrackerModel {
                working: working.model(),
                preferences: preferences@,
                creating: false,
                saving: None,
                remembering: false,
            }),
    {
        Tracker { working, preferences, creating: false, saving: None, remembering: false }
    }

    /// What the window is looking at.
    pub fn working(&self) -> (r: &WorkingState)
        ensures
            r.model() == self@.working,
    {
        &self.working
    }

    /// What the window was told to look like.
    pub fn preferences(&self) -> (r: &Preferences)
        ensures
            r@ == self@.preferences,
    {
        &self.preferences
    }

    /// Whether the inline "new issue" row is showing.
    pub fn creating(&self) -> (r: bool)
        ensures
            r == self@.creating,
    {
        self.creating
    }

    /// Settles the window after any change to the shared Issues. Says whether
    /// the inputs no longer describe what they are showing.
    pub fn on_projection_changed(&mut self, issues: &[Issue]) -> (force: bool)
        ensures
            final(self)@ == (TrackerModel {
                working: old(self)@.working.settled(issue::models(issues@)),
                ..old(self)@
            }),
            force == (final(self)@.working.selected != old(self)@.working.selected),
    {
        let settled = self.working.settle(issues);
        settled.selection_moved
    }

    /// Shows another View. The inputs then describe a different Issue, or the
    /// pickers do.
    pub fn select_view(&mut self, view: View, issues: &[Issue])
        ensures
            final(self)@ == old(self)@.looking(
                (WorkingModel { view, ..old(self)@.working }).reselected(issue::models(issues@)),
            ),
    {
        self.working.select_view(view, issues);
        self.remembering = true;
    }

    /// Selects a Tag filter, or clears it when the active Tag is picked again.
    pub fn toggle_tag_filter(&mut self, tag: Tag, issues: &[Issue])
        ensures
            final(self)@ == old(self)@.looking(
                old(self)@.working.toggled(tag@).reselected(issue::models(issues@)),
            ),
    {
        self.working.toggle_tag(tag, issues);
        self.remembering = true;
    }

    /// Filters the list by title.
    pub fn set_filter(&mut self, text: String, issues: &[Issue])
        ensures
            final(self)@ == old(self)@.looking(
                (WorkingModel { filter: text@, ..old(self)@.working }).reselected(
                    issue::models(issues@),
                ),
            ),
    {
        self.working.set_filter(text, issues);
        self.remembering = true;
    }

    /// Selects an Issue. Nothing happens where it is the selected one.
    pub fn select_issue(&mut self, id: IssueId) -> (r: Option<Moved>)
        ensures
            old(self)@.working.selected == Some(id) ==> r is None && final(self)@ == old(self)@,
            old(self)@.working.selected != Some(id) ==> r == Some(
                Moved { flushed: old(self)@.flushed(), force: true },
            ) && final(self)@ == old(self)@.saved().looking(
                WorkingModel { selected: Some(id), ..old(self)@.working },
            ),
    {
        if self.working.selected() == Some(id) {
            return None;
        }
        let flushed = self.flush_pending_save();
        let settled = self.working.select_issue(id);
        self.remembering = true;
        Some(Moved { flushed, force: settled.selection_moved })
    }

    /// Moves the selection by some rows of the list: whether the inputs no
    /// longer describe what they are showing.
    ///
    /// What was typed belongs to the Issue being left, and writing it can put
    /// the list in another order. So nothing of the selected Issue's may still be
    /// waiting: [`Tracker::flush_pending_save`] comes first, then the write it
    /// asks for, and then the move, over the list as the write left it.
    pub fn move_selection(&mut self, delta: isize, issues: &[Issue]) -> (force: bool)
        requires
            old(self)@.flushed() is None,
        ensures
            force == (final(self)@.working.selected != old(self)@.working.selected),
            final(self)@ == old(self)@.saved().looking(
                old(self)@.working.stepped(delta as int, issue::models(issues@)),
            ),
    {
        let settled = self.working.move_selection(delta, issues);
        self.saving = None;
        self.remembering = true;
        settled.selection_moved
    }

    /// Something was typed into the title, the body or the Size: it is to be
    /// saved once typing pauses.
    pub fn schedule_save(&mut self)
        ensures
            final(self)@ == (TrackerModel {
                saving: match old(self)@.working.selected {
                    Some(id) => Some(id),
                    None => old(self)@.saving,
                },
                ..old(self)@
            }),
    {
        if let Some(id) = self.working.selected() {
            self.saving = Some(id);
        }
    }

    /// Typing paused: whose edits to write.
    pub fn save(&mut self) -> (r: Option<IssueId>)
        ensures
            r == old(self)@.saving,
            final(self)@ == old(self)@.saved(),
    {
        let id = self.saving;
        self.saving = None;
        id
    }

    /// Saves at once: whose edits to write.
    ///
    /// This also runs before the API applies a write, so that a half-typed title
    /// reaches the store before anything else touches that Issue.
    pub fn flush_pending_save(&mut self) -> (r: Option<IssueId>)
        ensures
            r == old(self)@.flushed(),
            final(self)@ == old(self)@.saved(),
    {
        let waiting = self.saving.is_some();
        self.saving = None;
        if waiting {
            self.working.selected()
        } else {
            None
        }
    }

    /// The working state is to be stored: what to write.
    pub fn remember(&mut self) -> (r: Vec<(&'static str, String)>)
        ensures
            working_state::pairs_of(r@) == working_state::written(old(self)@.working),
            final(self)@ == (TrackerModel { remembering: false, ..old(self)@ }),
    {
        self.remembering = false;
        self.working.settings()
    }

    /// Everything that is still waiting is to be written now: whose edits, and
    /// what of the working state. Without this, quitting or closing the window
    /// while something waits would silently discard the last edit.
    pub fn flush_pending_writes(&mut self) -> (r: (Option<IssueId>, Vec<(&'static str, String)>))
        ensures
            r.0 == old(self)@.flushed(),
            working_state::pairs_of(r.1@) == if old(self)@.remembering {
                working_state::written(old(self)@.working)
            } else {
                Seq::<(Seq<char>, Seq<char>)>::empty()
            },
            final(self)@ == (TrackerModel { remembering: false, ..old(self)@.saved() }),
    {
        let flushed = self.flush_pending_save();
        let settings = if self.remembering {
            self.remember()
        } else {
            let none: Vec<(&'static str, String)> = Vec::new();
            assert(working_state::pairs_of(none@) =~= Seq::<(Seq<char>, Seq<char>)>::empty());
            none
        };
        (flushed, settings)
    }

    /// The inline "new issue" row is to show.
    pub fn start_creating(&mut self)
        ensures
            final(self)@ == (TrackerModel { creating: true, ..old(self)@ }),
    {
        self.creating = true;
    }

    /// The inline "new issue" row is to go.
    pub fn cancel_creating(&mut self)
        ensures
            final(self)@ == (TrackerModel { creating: false, ..old(self)@ }),
    {
        self.creating = false;
    }

    /// A title was typed into the inline row.
    pub fn commit_new_issue(&mut self, title: &str) -> (r: Typed)
        ensures
            text::trimmed(title@).len() == 0 ==> r is Cancelled && final(self)@ == (TrackerModel {
                creating: false,
                ..old(self)@
            }),
            text::trimmed(title@).len() > 0 ==> final(self)@ == old(self)@ && r is Create
                && r->Create_0@ == text::trimmed(title@),
    {
        let title = text::trim(title);
        if text::char_count(title.as_str()) == 0 {
            self.cancel_creating();
            return Typed::Cancelled;
        }
        Typed::Create(title)
    }

    /// An Issue was filed from the inline row. The row stays, so that several
    /// can be typed in a row.
    pub fn created(&mut self, id: IssueId)
        ensures
            final(self)@ == (TrackerModel {
                working: WorkingModel { selected: Some(id), ..old(self)@.working },
                ..old(self)@
            }),
    {
        self.working.select_issue(id);
    }

    /// Escape always returns to the list, from wherever focus currently is.
    pub fn cancel_editing(&mut self) -> (r: Escaped)
        ensures
            old(self)@.creating ==> r == Escaped::Cancelled && final(self)@ == (TrackerModel {
                creating: false,
                ..old(self)@
            }),
            !old(self)@.creating ==> r == Escaped::Flushed(old(self)@.flushed()) && final(self)@
                == old(self)@.saved(),
    {
        if self.creating {
            self.cancel_creating();
            return Escaped::Cancelled;
        }
        Escaped::Flushed(self.flush_pending_save())
    }

    /// An Issue is about to be erased: a waiting save must not resurrect it.
    pub fn deleting(&mut self)
        ensures
            final(self)@ == old(self)@.saved(),
    {
        self.saving = None;
    }

    /// Shows or hides the sidebar: what to store.
    pub fn toggle_sidebar(&mut self) -> (r: Vec<(&'static str, String)>)
        ensures
            final(self)@ == (TrackerModel {
                preferences: PreferencesModel {
                    sidebar_hidden: !old(self)@.preferences.sidebar_hidden,
                    ..old(self)@.preferences
                },
                ..old(self)@
            }),
            working_state::pairs_of(r@) == preferences::written(final(self)@.preferences),
    {
        self.preferences.toggle_sidebar();
        self.preferences.settings()
    }

    /// Chooses a theme, if the catalogue has it: which of the loaded ones to
    /// apply, and what to store.
    pub fn choose_theme(&mut self, mode: ThemeMode, name: &str, catalogue: &ThemeCatalogue) -> (r:
        Option<(usize, Vec<(&'static str, String)>)>)
        ensures
            match r {
                Some((config, settings)) => {
                    &&& theme_catalogue::named(catalogue.shelf(mode), name@) matches Some(i)
                        && config == catalogue.shelf(mode)[i].config
                    &&& final(self)@ == (TrackerModel {
                        preferences: old(self)@.preferences.choosing(mode, name@),
                        ..old(self)@
                    })
                    &&& working_state::pairs_of(settings@) == preferences::written(
                        final(self)@.preferences,
                    )
                },
                None => theme_catalogue::named(catalogue.shelf(mode), name@) is None && final(self)@
                    == old(self)@,
            },
    {
        match catalogue.find(mode, name) {
            Some(choice) => {
                let config: usize = choice.config;
                self.preferences.choose_theme(mode, name);
                Some((config, self.preferences.settings()))
            },
            None => None,
        }
    }

    /// Which of the loaded themes was chosen for a mode, if it is still there:
    /// otherwise the built-in default applies.
    pub fn chosen_theme(&self, mode: ThemeMode, catalogue: &ThemeCatalogue) -> (r: Option<usize>)
        ensures
            r == match self@.preferences.chosen(mode) {
                Some(name) => match theme_catalogue::named(catalogue.shelf(mode), name) {
                    Some(i) => Some(catalogue.shelf(mode)[i].config),
                    None => None,
                },
                None => None,
            },
    {
        match self.preferences.theme(mode) {
            Some(name) => match catalogue.find(mode, name) {
                Some(choice) => Some(choice.config),
                None => None,
            },
            None => None,
        }
    }
}

// ---------------------------------------------------------------------------
// Laws
// ---------------------------------------------------------------------------

proof fn lemma_decimal_has_no_space(i: int)
    ensures
        forall|k: int| 0 <= k < text::decimal(i).len() ==> #[trigger] text::decimal(i)[k] != ' ',
        text::decimal(i).len() > 0,
    decreases if i < 0 {
        1 - i
    } else {
        i
    },
{
    let s = text::decimal(i);
    if i < 0 {
        lemma_decimal_has_no_space(-i);
        assert(s =~= seq!['-'] + text::decimal(-i));
    } else if i >= 10 {
        lemma_decimal_has_no_space(i / 10);
        assert(s == text::decimal(i / 10).push(text::digit((i % 10) as nat)));
    }
}

proof fn lemma_label_is_read(id: IssueId, rest: Seq<char>)
    ensures
        id_in_label(views::number_text(id) + " "@ + rest) == Some(id as int),
{
    reveal_strlit("#");
    reveal_strlit(" ");
    let label = views::number_text(id) + " "@ + rest;
    let number = text::decimal(id as int);
    let after = label.skip(1);
    lemma_decimal_has_no_space(id as int);
    assert(label.take(1) =~= "#"@);
    assert(after =~= number + " "@ + rest);
    assert forall|k: int| 0 <= k < number.len() implies #[trigger] after[k] != ' ' by {
        assert(after[k] == number[k]);
    }
    text::lemma_first_index_is(after, ' ', number.len() as int);
    assert(text::before_first(after, ' ') =~= number);
    text::a_written_number_reads_back(id);
}

/// Law: a picker entry is about the Issue it was written for, annotated or not.
pub proof fn a_label_names_its_issue(issue: IssueModel, issues: Seq<IssueModel>)
    ensures
        id_in_label(label_of(issue)) == Some(issue.id as int),
        id_in_label(annotated_label_of(issue, issues)) == Some(issue.id as int),
{
    lemma_label_is_read(issue.id, issue::shown_title(issue.title));
    if let Some(id) = issue.parent_id {
        if let Some(parent) = model::found(issues, id) {
            let rest = issue::shown_title(issue.title) + " \u{b7} under "@ + views::number_text(
                parent.id,
            );
            lemma_label_is_read(issue.id, rest);
            assert(annotated_label_of(issue, issues) =~= views::number_text(issue.id) + " "@ + rest);
        }
    }
}

/// Law: filling the inputs from an Issue and writing them back changes nothing.
pub proof fn untouched_inputs_change_nothing(issue: IssueModel, in_use: Seq<Seq<char>>)
    ensures
        model::patched(model::content_of(issue), edits_of(inputs_of(Some(issue))), in_use)
            == model::content_of(issue),
{
    if let Some(size) = issue.size {
        let written = text::decimal(size as int);
        text::a_written_unsigned_number_reads_back(size as nat, 255);
        lemma_decimal_is_trimmed(size as int);
    } else {
        assert(text::trimmed(Seq::<char>::empty()).len() == 0);
    }
}

proof fn lemma_decimal_is_trimmed(i: int)
    requires
        0 <= i,
    ensures
        text::trimmed(text::decimal(i)) == text::decimal(i),
        text::decimal(i).len() > 0,
{
    let s = text::decimal(i);
    text::lemma_digits_read_back(i as nat);
    assert(text::is_digit(s[0]));
    assert(text::is_digit(s.last()));
    assert(text::trimmed_start(s) =~= s);
    assert(text::trimmed_end(s) =~= s);
}

} // verus!
