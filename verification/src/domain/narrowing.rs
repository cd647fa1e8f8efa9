//! Narrowing: which of the Issues a surface asks for.

use std::str::FromStr;

use vstd::prelude::*;
use vstd::view::View as _;

use crate::domain::issue;
use crate::domain::issue::{Issue, IssueModel};
use crate::domain::kinds::{IssueId, ParseError};
use crate::domain::tag;
use crate::domain::tag::Tag;
use crate::domain::view::View;
use crate::text;

verus! {

broadcast use vstd::seq_lib::group_seq_properties;

/// Which Issues a Parent narrowing admits.
#[derive(Debug, Clone, Copy, PartialEq, Eq, Structural)]
pub enum ParentFilter {
    /// Only Issues that are not part of anything.
    Unparented,
    /// The Sub-issues of one Issue.
    Under(IssueId),
}

impl ParentFilter {
    /// Whether an Issue with this parent passes.
    pub open spec fn passes(self, parent: Option<IssueId>) -> bool {
        match self {
            ParentFilter::Unparented => parent is None,
            ParentFilter::Under(id) => parent == Some(id),
        }
    }

    /// The filter a text asks for.
    pub open spec fn named(s: Seq<char>) -> Option<ParentFilter> {
        if s == "none"@ {
            Some(ParentFilter::Unparented)
        } else {
            match text::integer(s) {
                Some(id) => Some(ParentFilter::Under(id as i64)),
                None => None,
            }
        }
    }

    /// Whether an Issue passes.
    pub fn matches(self, issue: &Issue) -> (r: bool)
        ensures
            r == self.passes(issue@.parent_id),
    {
        match self {
            ParentFilter::Unparented => issue.parent_id.is_none(),
            ParentFilter::Under(id) => issue.parent_id == Some(id),
        }
    }
}

/// `none` is a literal rather than an empty value, because an empty one is
/// what a caller sends by accident when a variable was never set.
impl FromStr for ParentFilter {
    type Err = ParseError;

    fn from_str(s: &str) -> (r: Result<Self, ParseError>)
        ensures
            match r {
                Ok(filter) => ParentFilter::named(s@) == Some(filter),
                Err(err) => ParentFilter::named(s@) is None && err.kind@ == "parent"@ && err.value@
                    == s@,
            },
    {
        if text::same(s, "none") {
            return Ok(ParentFilter::Unparented);
        }
        match text::parse_integer(s) {
            Some(id) => Ok(ParentFilter::Under(id)),
            None => Err(ParseError { kind: "parent", value: s.to_owned() }),
        }
    }
}

/// A narrowing as the contracts speak of it.
#[verifier::ext_equal]
pub struct NarrowingModel {
    pub view: View,
    pub tag: Option<Seq<char>>,
    pub title: Option<Seq<char>>,
    pub parent: Option<ParentFilter>,
}

/// What a title is searched for: the text asked for, trimmed and case-folded.
/// A blank text asks for nothing.
pub open spec fn needle_of(title: Option<Seq<char>>) -> Option<Seq<char>> {
    match title {
        Some(wanted) => {
            let folded = text::lowercased(text::trimmed(wanted));
            if text::trimmed(wanted).len() == 0 || folded.len() == 0 {
                None
            } else {
                Some(folded)
            }
        },
        None => None,
    }
}

impl NarrowingModel {
    /// Whether an Issue passes every part of the narrowing.
    pub open spec fn admits(self, issue: IssueModel) -> bool {
        &&& self.view.shows(issue.status)
        &&& (self.tag matches Some(name) ==> tag::has_tag(issue.tags, name))
        &&& (self.parent matches Some(parent) ==> parent.passes(issue.parent_id))
        &&& (needle_of(self.title) matches Some(needle) ==> text::holds(
            text::lowercased(issue.title),
            needle,
        ))
    }

    /// The Issues that pass, in the order they were given.
    pub open spec fn selected(self, issues: Seq<IssueModel>) -> Seq<IssueModel> {
        issues.filter(|i: IssueModel| self.admits(i))
    }
}

/// One narrowing of the Issues.
///
/// Composition is all it does: a View, optionally within a Tag, optionally
/// matching a title, optionally under a Parent. There is deliberately no query
/// language, because a View is predefined and everything else here narrows
/// within one.
///
/// Every surface asks the same question: the window narrows by what you
/// clicked, the API by its query string. Written twice, the two drift.
#[derive(Debug, Clone, PartialEq, Eq)]
pub struct Narrowing {
    pub view: View,
    pub tag: Option<Tag>,
    /// Matched against the title, ignoring case and surrounding space.
    /// Titles only: never bodies, never Tag names.
    pub title: Option<String>,
    pub parent: Option<ParentFilter>,
}

impl vstd::view::View for Narrowing {
    type V = NarrowingModel;

    open spec fn view(&self) -> NarrowingModel {
        NarrowingModel {
            view: self.view,
            tag: match self.tag {
                Some(tag) => Some(tag@),
                None => None,
            },
            title: match self.title {
                Some(title) => Some(title@),
                None => None,
            },
            parent: self.parent,
        }
    }
}

/// The narrowing that is a whole View.
pub open spec fn whole(view: View) -> NarrowingModel {
    NarrowingModel { view, tag: None, title: None, parent: None }
}

impl Default for Narrowing {
    fn default() -> (r: Narrowing)
        ensures
            r@ == whole(View::All),
    {
        Narrowing { view: View::All, tag: None, title: None, parent: None }
    }
}

/// Whether a list of Tags holds one, in whatever spelling.
pub fn carries(tags: &Vec<Tag>, wanted: &Tag) -> (r: bool)
    ensures
        r == tag::has_tag(tag::names(tags@), wanted@),
{
    let ghost all = tag::names(tags@);
    let mut i: usize = 0;
    while i < tags.len()
        invariant
            i <= tags.len(),
            all == tag::names(tags@),
            forall|j: int| 0 <= j < i ==> tag::key_of(#[trigger] all[j]) != tag::key_of(wanted@),
        decreases tags.len() - i,
    {
        assert(all[i as int] == tags@[i as int]@);
        if tags[i].is(wanted) {
            return true;
        }
        i += 1;
    }
    false
}

impl Narrowing {
    /// A whole View, unnarrowed.
    pub fn for_view(view: View) -> (r: Narrowing)
        ensures
            r@ == whole(view),
    {
        Narrowing { view, tag: None, title: None, parent: None }
    }

    /// The matching Issues, in the order they were given, which is display
    /// order, so every surface agrees on what "first" means.
    pub fn select<'a>(&self, issues: &'a [Issue]) -> (r: Vec<&'a Issue>)
        ensures
            issue::models_of(r@) == self@.selected(issue::models(issues@)),
    {
        let needle = self.needle();
        let ghost all = issue::models(issues@);
        let ghost pass = |i: IssueModel| self@.admits(i);
        let mut out: Vec<&'a Issue> = Vec::new();
        let mut i: usize = 0;
        proof {
            lemma_filter_step(all, pass, 0);
        }
        while i < issues.len()
            invariant
                i <= issues.len(),
                all == issue::models(issues@),
                pass == (|i: IssueModel| self@.admits(i)),
                needle_is(needle, self@.title),
                issue::models_of(out@) == all.take(i as int).filter(pass),
            decreases issues.len() - i,
        {
            proof {
                lemma_filter_step(all, pass, i as int);
            }
            if self.admits(&issues[i], &needle) {
                out.push(&issues[i]);
                assert(issue::models_of(out@) =~= all.take(i as int).filter(pass).push(
                    all[i as int],
                ));
            }
            i += 1;
        }
        assert(all.take(i as int) =~= all);
        out
    }

    /// How many match, without materialising them: a sidebar badge wants the
    /// number and nothing else, once per View per render.
    pub fn count(&self, issues: &[Issue]) -> (n: usize)
        ensures
            n == self@.selected(issue::models(issues@)).len(),
    {
        let needle = self.needle();
        let ghost all = issue::models(issues@);
        let ghost pass = |i: IssueModel| self@.admits(i);
        let mut n: usize = 0;
        let mut i: usize = 0;
        proof {
            lemma_filter_step(all, pass, 0);
        }
        while i < issues.len()
            invariant
                i <= issues.len(),
                n <= i,
                all == issue::models(issues@),
                pass == (|i: IssueModel| self@.admits(i)),
                needle_is(needle, self@.title),
                n == all.take(i as int).filter(pass).len(),
            decreases issues.len() - i,
        {
            proof {
                lemma_filter_step(all, pass, i as int);
            }
            if self.admits(&issues[i], &needle) {
                n += 1;
            }
            i += 1;
        }
        assert(all.take(i as int) =~= all);
        n
    }

    /// Folded once per call rather than once per Issue. A blank title match is
    /// no match at all, so a filter box the user has emptied narrows nothing.
    fn needle(&self) -> (r: Option<String>)
        ensures
            needle_is(r, self@.title),
    {
        match &self.title {
            Some(title) => {
                let folded = text::to_lowercase(text::trim(title.as_str()).as_str());
                if text::char_count(folded.as_str()) == 0 {
                    None
                } else {
                    Some(folded)
                }
            },
            None => None,
        }
    }

    fn admits(&self, issue: &Issue, needle: &Option<String>) -> (r: bool)
        requires
            needle_is(*needle, self@.title),
        ensures
            r == self@.admits(issue@),
    {
        let tag_passes = match &self.tag {
            Some(tag) => carries(&issue.tags, tag),
            None => true,
        };
        let parent_passes = match self.parent {
            Some(parent) => parent.matches(issue),
            None => true,
        };
        let title_passes = match needle {
            Some(needle) => text::contains(
                text::to_lowercase(issue.title.as_str()).as_str(),
                needle.as_str(),
            ),
            None => true,
        };
        self.view.contains(issue) && tag_passes && parent_passes && title_passes
    }
}

/// Whether this is the text that a title is searched for.
spec fn needle_is(needle: Option<String>, title: Option<Seq<char>>) -> bool {
    match needle {
        Some(text) => needle_of(title) == Some(text@),
        None => needle_of(title) is None,
    }
}

/// How a filtered sequence grows with one more element.
pub proof fn lemma_filter_step<A>(all: Seq<A>, pass: spec_fn(A) -> bool, i: int)
    requires
        0 <= i <= all.len(),
    ensures
        i == 0 ==> all.take(i).filter(pass) == Seq::<A>::empty(),
        i < all.len() ==> all.take(i + 1).filter(pass) == if pass(all[i]) {
            all.take(i).filter(pass).push(all[i])
        } else {
            all.take(i).filter(pass)
        },
{
    reveal(Seq::filter);
    if i == 0 {
        assert(all.take(0) =~= Seq::<A>::empty());
    }
    if i < all.len() {
        assert(all.take(i + 1).drop_last() =~= all.take(i));
        assert(all.take(i + 1).last() == all[i]);
    }
}

// ---------------------------------------------------------------------------
// What holds of every narrowing
// ---------------------------------------------------------------------------

/// A blank title match narrows nothing: an emptied filter box shows
/// everything that the rest of the narrowing shows.
pub proof fn a_blank_title_narrows_nothing(narrowing: NarrowingModel, blank: Seq<char>)
    requires
        text::trimmed(blank).len() == 0,
    ensures
        forall|i: IssueModel| #[trigger]
            (NarrowingModel { title: Some(blank), ..narrowing }).admits(i) == (NarrowingModel {
                title: None,
                ..narrowing
            }).admits(i),
{
}

/// The narrowing that asks for nothing admits everything.
pub proof fn an_empty_narrowing_admits_everything(issues: Seq<IssueModel>)
    ensures
        whole(View::All).selected(issues) == issues,
    decreases issues.len(),
{
    reveal(Seq::filter);
    if issues.len() > 0 {
        an_empty_narrowing_admits_everything(issues.drop_last());
        assert(issues.drop_last().push(issues.last()) =~= issues);
    } else {
        assert(issues.filter(|i: IssueModel| whole(View::All).admits(i)) =~= issues);
    }
}

/// The narrowings compose: narrowing by all four at once is narrowing by each
/// in turn, whatever the order.
pub proof fn the_narrowings_compose(narrowing: NarrowingModel, issues: Seq<IssueModel>)
    ensures
        ({
            let by_view = whole(narrowing.view);
            let by_tag = NarrowingModel { tag: narrowing.tag, ..whole(View::All) };
            let by_title = NarrowingModel { title: narrowing.title, ..whole(View::All) };
            let by_parent = NarrowingModel { parent: narrowing.parent, ..whole(View::All) };
            narrowing.selected(issues) == by_parent.selected(
                by_title.selected(by_tag.selected(by_view.selected(issues))),
            )
        }),
    decreases issues.len(),
{
    reveal(Seq::filter);
    if issues.len() > 0 {
        the_narrowings_compose(narrowing, issues.drop_last());
        let by_view = whole(narrowing.view);
        let by_tag = NarrowingModel { tag: narrowing.tag, ..whole(View::All) };
        let by_title = NarrowingModel { title: narrowing.title, ..whole(View::All) };
        let by_parent = NarrowingModel { parent: narrowing.parent, ..whole(View::All) };
        let last = issues.last();
        let a = by_view.selected(issues.drop_last());
        let b = by_tag.selected(a);
        let c = by_title.selected(b);
        lemma_filter_push(a, |i: IssueModel| by_tag.admits(i), last);
        lemma_filter_push(b, |i: IssueModel| by_title.admits(i), last);
        lemma_filter_push(c, |i: IssueModel| by_parent.admits(i), last);
        assert(narrowing.admits(last) == (by_view.admits(last) && by_tag.admits(last)
            && by_title.admits(last) && by_parent.admits(last)));
    }
}

proof fn lemma_filter_push<A>(all: Seq<A>, pass: spec_fn(A) -> bool, x: A)
    ensures
        all.push(x).filter(pass) == if pass(x) {
            all.filter(pass).push(x)
        } else {
            all.filter(pass)
        },
{
    reveal(Seq::filter);
    assert(all.push(x).drop_last() =~= all);
}

} // verus!
