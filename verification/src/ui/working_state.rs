//! What a window is looking at: the View, the Tag filter, the title filter,
//! and which Issue is selected.
//!
//! Everything here needs the Issues in display order and nothing else. The
//! rules are not obvious: a Tag filter can be left pointing at a Tag that no
//! longer exists, and a selection can fall out of the visible set from either
//! end.
//!
//! Working state is per window.

use std::str::FromStr;

use vstd::prelude::*;
use vstd::view::View as _;

use crate::domain::issue;
use crate::domain::issue::{Issue, IssueModel};
use crate::domain::kinds::IssueId;
use crate::domain::narrowing;
use crate::domain::narrowing::{Narrowing, NarrowingModel};
use crate::domain::tag;
use crate::domain::tag::Tag;
use crate::domain::view;
use crate::domain::view::View;
use crate::store::settings_keys;
use crate::text;

verus! {

/// What changed, for the caller to act on.
///
/// The window refreshes inputs, schedules a save and redraws, because none of
/// that belongs to the question "what am I looking at". This says only whether
/// the answer moved.
#[derive(Debug, Clone, Copy, PartialEq, Eq, Structural)]
pub struct Settled {
    pub selection_moved: bool,
}

impl Settled {
    fn moved(moved: bool) -> (r: Settled)
        ensures
            r.selection_moved == moved,
    {
        Settled { selection_moved: moved }
    }
}

/// What a window is looking at.
#[derive(Debug, PartialEq, Eq)]
pub struct WorkingState {
    view: View,
    selected: Option<IssueId>,
    /// Substring filter over titles, driven by the list header input.
    filter: String,
    /// Narrows the list to one Tag within the active View. Deliberately not a
    /// `View` variant: a View is predefined, a Tag filter is whatever the user
    /// invented.
    tag_filter: Option<Tag>,
}

/// What a window is looking at, as the contracts speak of it.
#[verifier::ext_equal]
pub struct WorkingModel {
    pub view: View,
    pub selected: Option<IssueId>,
    pub filter: Seq<char>,
    pub tag: Option<Seq<char>>,
}

/// The name of an optional Tag.
pub open spec fn name_of(tag: Option<Tag>) -> Option<Seq<char>> {
    match tag {
        Some(tag) => Some(tag@),
        None => None,
    }
}

impl WorkingState {
    /// What the window is looking at.
    pub closed spec fn model(&self) -> WorkingModel {
        WorkingModel {
            view: self.view,
            selected: self.selected,
            filter: self.filter@,
            tag: name_of(self.tag_filter),
        }
    }
}

/// The ids of some Issues.
pub open spec fn ids(issues: Seq<IssueModel>) -> Seq<IssueId> {
    issues.map_values(|i: IssueModel| i.id)
}

/// Whether any Issue carries a Tag.
pub open spec fn in_use(issues: Seq<IssueModel>, name: Seq<char>) -> bool {
    exists|i: int| 0 <= i < issues.len() && tag::has_tag((#[trigger] issues[i]).tags, name)
}

impl WorkingModel {
    /// How the list is narrowed.
    pub open spec fn narrowing(self) -> NarrowingModel {
        NarrowingModel { view: self.view, tag: self.tag, title: Some(self.filter), parent: None }
    }

    /// The Issues the list shows.
    pub open spec fn shown(self, issues: Seq<IssueModel>) -> Seq<IssueModel> {
        self.narrowing().selected(issues)
    }

    /// With a Tag filter that no Issue carries dropped.
    pub open spec fn pruned(self, issues: Seq<IssueModel>) -> WorkingModel {
        WorkingModel {
            tag: match self.tag {
                Some(name) => if in_use(issues, name) {
                    Some(name)
                } else {
                    None
                },
                None => None,
            },
            ..self
        }
    }

    /// With the selection inside the visible set, falling back to the first row
    /// rather than to nothing.
    pub open spec fn reselected(self, issues: Seq<IssueModel>) -> WorkingModel {
        let visible = ids(self.shown(issues));
        WorkingModel {
            selected: match self.selected {
                Some(id) if visible.contains(id) => Some(id),
                _ => if visible.len() == 0 {
                    None
                } else {
                    Some(visible[0])
                },
            },
            ..self
        }
    }

    /// Settled after a change to the Issues themselves.
    pub open spec fn settled(self, issues: Seq<IssueModel>) -> WorkingModel {
        self.pruned(issues).reselected(issues)
    }

    /// With a Tag filter applied, or cleared where it is the active one.
    pub open spec fn toggled(self, name: Seq<char>) -> WorkingModel {
        WorkingModel {
            tag: match self.tag {
                Some(active) if tag::key_of(active) == tag::key_of(name) => None,
                _ => Some(name),
            },
            ..self
        }
    }

    /// With the selection moved by some rows, stopping at either end.
    pub open spec fn stepped(self, delta: int, issues: Seq<IssueModel>) -> WorkingModel {
        let visible = ids(self.shown(issues));
        if visible.len() == 0 {
            self
        } else {
            WorkingModel { selected: Some(visible[self.row_after(delta, visible)]), ..self }
        }
    }

    /// The row that is `delta` rows from the selected one, as far as the list
    /// goes; the first where the selected one is not in the list.
    pub open spec fn row_after(self, delta: int, visible: Seq<IssueId>) -> int {
        match self.selected {
            Some(id) if visible.contains(id) => clamped(
                visible.index_of_first(id)->Some_0 + delta,
                visible.len() - 1,
            ),
            _ => 0,
        }
    }
}

/// A number held between zero and a maximum.
pub open spec fn clamped(i: int, max: int) -> int {
    if i < 0 {
        0
    } else if i > max {
        max
    } else {
        i
    }
}

/// What was stored of a working state, key by key.
#[derive(Debug)]
pub struct Stored {
    pub view: Option<String>,
    pub selected: Option<String>,
    pub filter: Option<String>,
    pub tag: Option<String>,
}

/// What was stored, as the contracts speak of it.
#[verifier::ext_equal]
pub struct StoredModel {
    pub view: Option<Seq<char>>,
    pub selected: Option<Seq<char>>,
    pub filter: Option<Seq<char>>,
    pub tag: Option<Seq<char>>,
}

impl vstd::view::View for Stored {
    type V = StoredModel;

    open spec fn view(&self) -> StoredModel {
        StoredModel {
            view: crate::api::http::optional_text(self.view),
            selected: crate::api::http::optional_text(self.selected),
            filter: crate::api::http::optional_text(self.filter),
            tag: crate::api::http::optional_text(self.tag),
        }
    }
}

/// The Tag a text names, if it is usable as one.
pub open spec fn tag_named(raw: Seq<char>) -> Option<Seq<char>> {
    if tag::usable_name(text::trimmed(raw)) {
        Some(text::trimmed(raw))
    } else {
        None
    }
}

/// The working state that was stored, before it is settled. Anything unreadable
/// is treated as absent.
pub open spec fn recalled(stored: StoredModel) -> WorkingModel {
    WorkingModel {
        view: match stored.view {
            Some(raw) => match View::named(raw) {
                Some(view) => view,
                None => View::All,
            },
            None => View::All,
        },
        selected: match stored.selected {
            Some(raw) => match text::integer(raw) {
                Some(id) => Some(id as i64),
                None => None,
            },
            None => None,
        },
        filter: match stored.filter {
            Some(raw) => raw,
            None => Seq::<char>::empty(),
        },
        tag: match stored.tag {
            Some(raw) => tag_named(raw),
            None => None,
        },
    }
}

/// The keys and values a working state is stored as.
pub open spec fn written(state: WorkingModel) -> Seq<(Seq<char>, Seq<char>)> {
    seq![
        (settings_keys::UI_VIEW@, state.view.stored()),
        (
            settings_keys::UI_SELECTED@,
            match state.selected {
                Some(id) => text::decimal(id as int),
                None => Seq::<char>::empty(),
            },
        ),
        (settings_keys::UI_FILTER@, state.filter),
        (
            settings_keys::UI_TAG@,
            match state.tag {
                Some(name) => name,
                None => Seq::<char>::empty(),
            },
        ),
    ]
}

/// The models of some keys and values.
pub open spec fn pairs_of(pairs: Seq<(&'static str, String)>) -> Seq<(Seq<char>, Seq<char>)> {
    pairs.map_values(|p: (&'static str, String)| (p.0@, p.1@))
}

/// The value stored under a key, where one is.
pub open spec fn stored_under(pairs: Seq<(Seq<char>, Seq<char>)>, key: Seq<char>) -> Option<
    Seq<char>,
>
    decreases pairs.len(),
{
    if pairs.len() == 0 {
        None
    } else if pairs[0].0 == key {
        Some(pairs[0].1)
    } else {
        stored_under(pairs.skip(1), key)
    }
}

/// What some keys and values say of a working state.
pub open spec fn stored_in(pairs: Seq<(Seq<char>, Seq<char>)>) -> StoredModel {
    StoredModel {
        view: stored_under(pairs, settings_keys::UI_VIEW@),
        selected: stored_under(pairs, settings_keys::UI_SELECTED@),
        filter: stored_under(pairs, settings_keys::UI_FILTER@),
        tag: stored_under(pairs, settings_keys::UI_TAG@),
    }
}

/// A window that has never been used.
pub open spec fn fresh() -> WorkingModel {
    WorkingModel { view: View::All, selected: None, filter: Seq::<char>::empty(), tag: None }
}

impl Default for WorkingState {
    fn default() -> (r: WorkingState)
        ensures
            r.model() == fresh(),
    {
        let r = WorkingState {
            view: View::All,
            selected: None,
            filter: String::new(),
            tag_filter: None,
        };
        assert(r.model() =~= fresh());
        r
    }
}

fn first_of(visible: &Vec<IssueId>) -> (r: Option<IssueId>)
    ensures
        r == if visible@.len() == 0 {
            None
        } else {
            Some(visible@[0])
        },
{
    if visible.len() == 0 {
        None
    } else {
        Some(visible[0])
    }
}

/// The first row that shows an Issue.
fn row_of(visible: &Vec<IssueId>, id: IssueId) -> (r: Option<usize>)
    ensures
        match r {
            Some(row) => row < visible@.len() && visible@[row as int] == id && visible@.contains(id)
                && visible@.index_of_first(id) == Some(row as int),
            None => !visible@.contains(id),
        },
{
    let mut i: usize = 0;
    while i < visible.len()
        invariant
            i <= visible.len(),
            forall|j: int| 0 <= j < i ==> visible@[j] != id,
        decreases visible.len() - i,
    {
        if visible[i] == id {
            proof {
                visible@.index_of_first_ensures(id);
                let first = visible@.index_of_first(id)->Some_0;
                assert(visible@.contains(id));
                assert(first == i);
            }
            return Some(i);
        }
        i += 1;
    }
    None
}

impl WorkingState {
    /// The working state that was stored, settled among the Issues there are
    /// now: a stored Tag nothing carries any more, or an Issue that has since
    /// been deleted or filtered out, is exactly what settling handles.
    pub fn from_stored(issues: &[Issue], stored: Stored) -> (r: WorkingState)
        ensures
            r.model() == recalled(stored@).settled(issue::models(issues@)),
    {
        let view = match &stored.view {
            Some(raw) => match View::from_str(raw.as_str()) {
                Ok(view) => view,
                Err(_) => View::All,
            },
            None => View::All,
        };
        let selected = match &stored.selected {
            Some(raw) => text::parse_integer(raw.as_str()),
            None => None,
        };
        let tag_filter = match &stored.tag {
            Some(raw) => match Tag::from_str(raw.as_str()) {
                Ok(tag) => Some(tag),
                Err(_) => None,
            },
            None => None,
        };
        let filter = match stored.filter {
            Some(raw) => raw,
            None => String::new(),
        };
        let mut state = WorkingState { view, selected, filter, tag_filter };
        assert(state.model() =~= recalled(stored@));
        state.settle(issues);
        state
    }

    /// Restores last session's working state.
    ///
    /// Reading is the caller's job: this takes a lookup rather than a store, so
    /// the keys stay here with the fields they belong to. Anything unreadable is
    /// treated as absent rather than fatal: losing your place should not cost
    /// you the window.
    pub fn restore<F: Fn(&str) -> Option<String>>(issues: &[Issue], read: F) -> (r: WorkingState)
        requires
            call_requires(read, (settings_keys::UI_VIEW,)),
            call_requires(read, (settings_keys::UI_SELECTED,)),
            call_requires(read, (settings_keys::UI_FILTER,)),
            call_requires(read, (settings_keys::UI_TAG,)),
        ensures
            exists|stored: Stored|
                {
                    &&& call_ensures(read, (settings_keys::UI_VIEW,), stored.view)
                    &&& call_ensures(read, (settings_keys::UI_SELECTED,), stored.selected)
                    &&& call_ensures(read, (settings_keys::UI_FILTER,), stored.filter)
                    &&& call_ensures(read, (settings_keys::UI_TAG,), stored.tag)
                    &&& r.model() == recalled(#[trigger] stored@).settled(issue::models(issues@))
                },
    {
        let stored = Stored {
            view: read(settings_keys::UI_VIEW),
            selected: read(settings_keys::UI_SELECTED),
            filter: read(settings_keys::UI_FILTER),
            tag: read(settings_keys::UI_TAG),
        };
        let ghost had = stored;
        let r = WorkingState::from_stored(issues, stored);
        assert(r.model() == recalled(had@).settled(issue::models(issues@)));
        r
    }

    /// The keys and values to persist. No I/O: the caller owns the writing, and
    /// this owns the list of what there is to write.
    pub fn settings(&self) -> (r: Vec<(&'static str, String)>)
        ensures
            pairs_of(r@) == written(self.model()),
    {
        let selected = match self.selected {
            Some(id) => text::decimal_i64(id),
            None => String::new(),
        };
        let tag = match &self.tag_filter {
            Some(tag) => tag.to_string(),
            None => String::new(),
        };
        let mut out: Vec<(&'static str, String)> = Vec::new();
        out.push((settings_keys::UI_VIEW, self.view.to_string()));
        out.push((settings_keys::UI_SELECTED, selected));
        out.push((settings_keys::UI_FILTER, self.filter.clone()));
        out.push((settings_keys::UI_TAG, tag));
        assert(pairs_of(out@)[1].1 =~= written(self.model())[1].1);
        assert(pairs_of(out@)[3].1 =~= written(self.model())[3].1);
        assert(pairs_of(out@) =~= written(self.model()));
        out
    }

    /// The active View.
    pub fn view(&self) -> (r: View)
        ensures
            r == self.model().view,
    {
        self.view
    }

    /// The active Tag filter.
    pub fn tag(&self) -> (r: Option<&Tag>)
        ensures
            match r {
                Some(tag) => self.model().tag == Some(tag@),
                None => self.model().tag is None,
            },
    {
        match &self.tag_filter {
            Some(tag) => Some(tag),
            None => None,
        }
    }

    /// The selected Issue.
    pub fn selected(&self) -> (r: Option<IssueId>)
        ensures
            r == self.model().selected,
    {
        self.selected
    }

    /// The title filter.
    pub fn filter(&self) -> (r: &str)
        ensures
            r@ == self.model().filter,
    {
        self.filter.as_str()
    }

    /// How the list is narrowed.
    pub fn narrowing(&self) -> (r: Narrowing)
        ensures
            r@ == self.model().narrowing(),
    {
        Narrowing {
            view: self.view,
            tag: match &self.tag_filter {
                Some(tag) => Some(tag.clone()),
                None => None,
            },
            title: Some(self.filter.clone()),
            parent: None,
        }
    }

    /// Issues in the active View matching both filters, in display order.
    ///
    /// The three narrowings compose: a Tag filter narrows within a View, and the
    /// title filter narrows within both.
    pub fn visible<'a>(&self, issues: &'a [Issue]) -> (r: Vec<&'a Issue>)
        ensures
            issue::models_of(r@) == self.model().shown(issue::models(issues@)),
    {
        self.narrowing().select(issues)
    }

    /// How many Issues a View would show, ignoring both filters: a sidebar badge
    /// counts the View, not the narrowing currently applied to it.
    pub fn count_for(view: View, issues: &[Issue]) -> (n: usize)
        ensures
            n == narrowing::whole(view).selected(issue::models(issues@)).len(),
    {
        Narrowing::for_view(view).count(issues)
    }

    /// Settles again after a change to the Issues themselves.
    ///
    /// Both halves matter. A derived Tag vanishes the moment the last Issue lets
    /// go of it, and a filter still pointing at one would show an empty list
    /// with no way back: the sidebar row you would clear it from is gone too. A
    /// selected Issue can likewise be deleted, or edited until it no longer
    /// matches.
    pub fn settle(&mut self, issues: &[Issue]) -> (r: Settled)
        ensures
            final(self).model() == old(self).model().settled(issue::models(issues@)),
            r.selection_moved == (final(self).model().selected != old(self).model().selected),
    {
        self.prune_tag(issues);
        self.reselect(issues)
    }

    /// Shows another View.
    pub fn select_view(&mut self, view: View, issues: &[Issue]) -> (r: Settled)
        ensures
            final(self).model() == (WorkingModel { view, ..old(self).model() }).reselected(
                issue::models(issues@),
            ),
            r.selection_moved == (final(self).model().selected != old(self).model().selected),
    {
        self.view = view;
        self.reselect(issues)
    }

    /// Selects an Issue.
    pub fn select_issue(&mut self, id: IssueId) -> (r: Settled)
        ensures
            final(self).model() == (WorkingModel { selected: Some(id), ..old(self).model() }),
            r.selection_moved == (old(self).model().selected != Some(id)),
    {
        if self.selected == Some(id) {
            return Settled::moved(false);
        }
        self.selected = Some(id);
        Settled::moved(true)
    }

    /// Applies a Tag filter, or clears it when the active Tag is picked again.
    pub fn toggle_tag(&mut self, tag: Tag, issues: &[Issue]) -> (r: Settled)
        ensures
            final(self).model() == old(self).model().toggled(tag@).reselected(issue::models(issues@)),
            r.selection_moved == (final(self).model().selected != old(self).model().selected),
    {
        let active = match &self.tag_filter {
            Some(current) => current.is(&tag),
            None => false,
        };
        self.tag_filter = if active {
            None
        } else {
            Some(tag)
        };
        self.reselect(issues)
    }

    /// Filters the list by title.
    pub fn set_filter(&mut self, text: String, issues: &[Issue]) -> (r: Settled)
        ensures
            final(self).model() == (WorkingModel { filter: text@, ..old(self).model() }).reselected(
                issue::models(issues@),
            ),
            r.selection_moved == (final(self).model().selected != old(self).model().selected),
    {
        self.filter = text;
        self.reselect(issues)
    }

    /// Moves the selection by `delta` rows, stopping at either end rather than
    /// wrapping.
    pub fn move_selection(&mut self, delta: isize, issues: &[Issue]) -> (r: Settled)
        ensures
            final(self).model() == old(self).model().stepped(delta as int, issue::models(issues@)),
            r.selection_moved == (final(self).model().selected != old(self).model().selected),
    {
        let visible = self.visible_ids(issues);
        if visible.len() == 0 {
            return Settled::moved(false);
        }
        let current = match self.selected {
            Some(id) => row_of(&visible, id),
            None => None,
        };
        let next: usize = match current {
            Some(row) => {
                let target: i128 = row as i128 + delta as i128;
                let last: usize = visible.len() - 1;
                if target < 0 {
                    0
                } else if target > last as i128 {
                    last
                } else {
                    target as usize
                }
            },
            None => 0,
        };
        assert(next == self.model().row_after(delta as int, visible@));
        self.select_issue(visible[next])
    }

    fn visible_ids(&self, issues: &[Issue]) -> (r: Vec<IssueId>)
        ensures
            r@ == ids(self.model().shown(issue::models(issues@))),
    {
        let visible = self.visible(issues);
        let ghost all = issue::models_of(visible@);
        let mut out: Vec<IssueId> = Vec::new();
        let mut i: usize = 0;
        while i < visible.len()
            invariant
                i <= visible.len(),
                out@.len() == i,
                all == issue::models_of(visible@),
                forall|k: int| 0 <= k < i ==> #[trigger] out@[k] == ids(all)[k],
            decreases visible.len() - i,
        {
            assert(all[i as int] == visible@[i as int]@);
            out.push(visible[i].id);
            i += 1;
        }
        assert(out@ =~= ids(all));
        out
    }

    /// Drops a Tag filter whose Tag no longer exists.
    fn prune_tag(&mut self, issues: &[Issue])
        ensures
            final(self).model() == old(self).model().pruned(issue::models(issues@)),
    {
        let ghost all = issue::models(issues@);
        let gone = match &self.tag_filter {
            Some(tag) => {
                let mut found = false;
                let mut i: usize = 0;
                while i < issues.len() && !found
                    invariant
                        i <= issues.len(),
                        all == issue::models(issues@),
                        !found ==> forall|j: int|
                            0 <= j < i ==> !tag::has_tag((#[trigger] all[j]).tags, tag@),
                        found ==> in_use(all, tag@),
                    decreases issues.len() - i,
                {
                    assert(all[i as int] == issues@[i as int]@);
                    if narrowing::carries(&issues[i].tags, tag) {
                        assert(tag::has_tag(all[i as int].tags, tag@));
                        found = true;
                    }
                    i += 1;
                }
                !found
            },
            None => false,
        };
        if gone {
            self.tag_filter = None;
        }
        assert(self.model() =~= old(self).model().pruned(all));
    }

    /// Keeps the selection inside the visible set.
    fn reselect(&mut self, issues: &[Issue]) -> (r: Settled)
        ensures
            final(self).model() == old(self).model().reselected(issue::models(issues@)),
            r.selection_moved == (final(self).model().selected != old(self).model().selected),
    {
        let before = self.selected;
        let visible = self.visible_ids(issues);
        let keeps = match self.selected {
            Some(id) => row_of(&visible, id).is_some(),
            None => false,
        };
        if !keeps {
            self.selected = first_of(&visible);
        }
        Settled::moved(before != self.selected)
    }
}

// ---------------------------------------------------------------------------
// Laws
// ---------------------------------------------------------------------------

/// Law: what is selected is visible, or nothing is.
pub proof fn a_settled_selection_is_visible(state: WorkingModel, issues: Seq<IssueModel>)
    ensures
        ({
            let settled = state.settled(issues);
            let visible = ids(settled.shown(issues));
            match settled.selected {
                Some(id) => visible.contains(id),
                None => visible.len() == 0,
            }
        }),
{
    let settled = state.settled(issues);
    let visible = ids(state.pruned(issues).shown(issues));
    assert(settled.narrowing() == state.pruned(issues).narrowing());
    if visible.len() > 0 {
        assert(visible.contains(visible[0]));
    }
}

/// Law: a Tag filter never outlives its Tag.
pub proof fn a_settled_filter_is_in_use(state: WorkingModel, issues: Seq<IssueModel>)
    ensures
        state.settled(issues).tag matches Some(name) ==> in_use(issues, name),
{
}

/// Law: settling again changes nothing.
pub proof fn settling_twice_is_settling_once(state: WorkingModel, issues: Seq<IssueModel>)
    ensures
        state.settled(issues).settled(issues) == state.settled(issues),
{
    a_settled_selection_is_visible(state, issues);
    let settled = state.settled(issues);
    assert(settled.pruned(issues) =~= settled);
}

/// Law: picking the active Tag again takes the filter off.
pub proof fn picking_a_tag_twice_clears_it(state: WorkingModel, name: Seq<char>)
    requires
        state.tag matches Some(active) ==> tag::key_of(active) != tag::key_of(name),
    ensures
        state.toggled(name).tag == Some(name),
        state.toggled(name).toggled(name).tag is None,
{
}

/// Law: the selection moves to a row of the list, never past either end.
pub proof fn the_selection_stops_at_both_ends(
    state: WorkingModel,
    delta: int,
    issues: Seq<IssueModel>,
)
    ensures
        ({
            let visible = ids(state.shown(issues));
            &&& visible.len() > 0 ==> state.stepped(delta, issues).selected is Some
                && visible.contains(state.stepped(delta, issues).selected->Some_0)
            &&& visible.len() == 0 ==> state.stepped(delta, issues) == state
            &&& state.selected == Some(visible[0]) && visible.len() > 0 && delta <= 0
                ==> state.stepped(delta, issues) == state
        }),
{
    let visible = ids(state.shown(issues));
    if visible.len() > 0 {
        if let Some(id) = state.selected {
            visible.index_of_first_ensures(id);
        }
        let row = state.row_after(delta, visible);
        assert(0 <= row < visible.len());
        assert(visible.contains(visible[row]));
        if state.selected == Some(visible[0]) && delta <= 0 {
            assert(visible.contains(visible[0]));
            assert(row == 0);
        }
    }
}

/// Law: what is written is what comes back. A settled working state, stored and
/// restored among the same Issues, is the same working state.
pub proof fn what_is_written_is_what_comes_back(state: WorkingModel, issues: Seq<IssueModel>)
    requires
        state.settled(issues) == state,
        state.tag matches Some(name) ==> tag::usable_name(name) && text::trimmed(name) == name,
    ensures
        recalled(stored_in(written(state))).settled(issues) == state,
{
    let pairs = written(state);
    reveal_strlit("ui.view");
    reveal_strlit("ui.selected");
    reveal_strlit("ui.filter");
    reveal_strlit("ui.tag");
    reveal_with_fuel(stored_under, 5);
    assert(pairs.skip(1)[0] == pairs[1]);
    assert(pairs.skip(1).skip(1)[0] == pairs[2]);
    assert(pairs.skip(1).skip(1).skip(1)[0] == pairs[3]);
    assert(settings_keys::UI_VIEW@.len() == 7);
    assert(settings_keys::UI_SELECTED@.len() == 11);
    assert(settings_keys::UI_FILTER@.len() == 9);
    assert(settings_keys::UI_TAG@.len() == 6);
    let stored = stored_in(pairs);
    assert(stored.view == Some(state.view.stored()));
    assert(stored.selected == Some(pairs[1].1));
    assert(stored.filter == Some(state.filter));
    assert(stored.tag == Some(pairs[3].1));
    view::a_view_reads_back(state.view);
    let none = Seq::<char>::empty();
    assert(text::trimmed(none).len() == 0);
    assert(text::integer(none) is None);
    if let Some(id) = state.selected {
        text::a_written_number_reads_back(id);
    }
    assert(recalled(stored) =~= state);
}

} // verus!
