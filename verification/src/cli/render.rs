//! Turning API responses into text.
//!
//! Pure with respect to the network and the terminal: everything here takes
//! already-fetched values and gives a list of [`Span`]s, each a piece of text
//! and how it is to be inked.

use std::str::FromStr;

use vstd::prelude::*;

use crate::api::wire;
use crate::api::wire::{IssueJson, IssueJsonModel, TagJson, TagJsonModel};
use crate::cli::pages;
use crate::domain::issue;
use crate::domain::issue::display_title;
use crate::domain::kinds::{Priority, Status};
use crate::domain::laws;
use crate::text;
use crate::time;

verus! {

broadcast use vstd::seq_lib::group_seq_properties;

/// How much of a title survives. Fixed rather than measured: fitting the
/// terminal would mean asking it for its size, which is a poor trade for column
/// alignment.
pub const TITLE_WIDTH: usize = 52;

pub const STATUS_WIDTH: usize = 9;

pub const PRIORITY_WIDTH: usize = 8;

/// Wide enough for a four-digit total, which is more than a one-level tree of
/// Sizes reaches in practice.
pub const SIZE_WIDTH: usize = 5;

/// A colour.
#[derive(Debug, Clone, Copy, PartialEq, Eq, Structural)]
pub enum Hue {
    Blue,
    Red,
    Green,
    Magenta,
    Yellow,
}

/// How a piece of text is inked.
#[derive(Debug, Clone, Copy, PartialEq, Eq, Structural)]
pub enum Ink {
    Plain,
    Dim,
    Coloured(Hue),
}

/// A piece of text and how it is inked.
#[derive(Debug, Clone, PartialEq, Eq)]
pub struct Span {
    pub text: String,
    pub ink: Ink,
}

/// A piece of text and how it is inked, as the contracts speak of it.
#[verifier::ext_equal]
pub struct SpanModel {
    pub text: Seq<char>,
    pub ink: Ink,
}

impl View for Span {
    type V = SpanModel;

    open spec fn view(&self) -> SpanModel {
        SpanModel { text: self.text@, ink: self.ink }
    }
}

/// The models of a list of spans.
pub open spec fn spans(list: Seq<Span>) -> Seq<SpanModel> {
    list.map_values(|s: Span| s@)
}

/// Plain text.
pub open spec fn plain(text: Seq<char>) -> SpanModel {
    SpanModel { text, ink: Ink::Plain }
}

/// Text that stands back.
pub open spec fn dim(text: Seq<char>) -> SpanModel {
    SpanModel { text, ink: Ink::Dim }
}

/// Text in a colour, where there is one.
pub open spec fn coloured(hue: Option<Hue>, text: Seq<char>) -> SpanModel {
    SpanModel {
        text,
        ink: match hue {
            Some(hue) => Ink::Coloured(hue),
            None => Ink::Plain,
        },
    }
}

/// The colour of a Status, by its name.
pub open spec fn hue_of_status(status: Seq<char>) -> Option<Hue> {
    match Status::named(status) {
        Some(Status::Doing) => Some(Hue::Blue),
        Some(Status::Blocked) => Some(Hue::Red),
        Some(Status::Done) => Some(Hue::Green),
        Some(Status::Cancelled) => Some(Hue::Magenta),
        Some(Status::Todo) => None,
        None => None,
    }
}

/// The colour of a Priority, by its name.
pub open spec fn hue_of_priority(priority: Seq<char>) -> Option<Hue> {
    match Priority::named(priority) {
        Some(Priority::Urgent) => Some(Hue::Red),
        Some(Priority::High) => Some(Hue::Yellow),
        _ => None,
    }
}

/// Parsed rather than string-matched, so that a sixth Status is a missing arm
/// here rather than a column that silently loses its colour.
pub fn status_colour(status: &str) -> (r: Option<Hue>)
    ensures
        r == hue_of_status(status@),
{
    match Status::from_str(status) {
        Ok(Status::Todo) => None,
        Ok(Status::Doing) => Some(Hue::Blue),
        Ok(Status::Blocked) => Some(Hue::Red),
        Ok(Status::Done) => Some(Hue::Green),
        Ok(Status::Cancelled) => Some(Hue::Magenta),
        Err(_) => None,
    }
}

/// The colour of a Priority, likewise.
pub fn priority_colour(priority: &str) -> (r: Option<Hue>)
    ensures
        r == hue_of_priority(priority@),
{
    match Priority::from_str(priority) {
        Ok(Priority::Urgent) => Some(Hue::Red),
        Ok(Priority::High) => Some(Hue::Yellow),
        Ok(Priority::Unset) => None,
        Ok(Priority::Low) => None,
        Ok(Priority::Medium) => None,
        Err(_) => None,
    }
}

// ---------------------------------------------------------------------------
// Writing
// ---------------------------------------------------------------------------

fn push(out: &mut Vec<Span>, text: String, ink: Ink)
    ensures
        spans(final(out)@) == spans(old(out)@) + seq![SpanModel { text: text@, ink }],
{
    let ghost had = spans(out@);
    let ghost one = SpanModel { text: text@, ink };
    out.push(Span { text, ink });
    assert(spans(out@) =~= had + seq![one]);
}

fn push_plain(out: &mut Vec<Span>, text: String)
    ensures
        spans(final(out)@) == spans(old(out)@) + seq![plain(text@)],
{
    push(out, text, Ink::Plain)
}

fn push_dim(out: &mut Vec<Span>, text: String)
    ensures
        spans(final(out)@) == spans(old(out)@) + seq![dim(text@)],
{
    push(out, text, Ink::Dim)
}

fn push_coloured(out: &mut Vec<Span>, hue: Option<Hue>, text: String)
    ensures
        spans(final(out)@) == spans(old(out)@) + seq![coloured(hue, text@)],
{
    match hue {
        Some(hue) => push(out, text, Ink::Coloured(hue)),
        None => push(out, text, Ink::Plain),
    }
}

// ---------------------------------------------------------------------------
// Titles
// ---------------------------------------------------------------------------

/// A text cut to a width, the last column spent on the ellipsis that says
/// something was cut.
pub open spec fn truncated(s: Seq<char>, budget: int) -> Seq<char> {
    if s.len() <= budget {
        s
    } else {
        s.take(
            if budget > 0 {
                budget - 1
            } else {
                0
            },
        ) + "…"@
    }
}

/// Cuts a text to a width.
pub fn truncate(s: &str, budget: usize) -> (r: String)
    ensures
        r@ == truncated(s@, budget as int),
{
    let chars = text::chars_of(s);
    if chars.len() <= budget {
        return s.to_owned();
    }
    let keep: usize = if budget > 0 {
        budget - 1
    } else {
        0
    };
    let mut cut = text::text_between(&chars, 0, keep);
    assert(chars@.subrange(0, keep as int) =~= s@.take(keep as int));
    cut.push_str("…");
    cut
}

/// A title that is cut fits the width it was cut to, if there is any.
pub proof fn what_is_cut_fits(s: Seq<char>, budget: int)
    requires
        budget > 0,
    ensures
        truncated(s, budget).len() <= budget,
{
    reveal_strlit("…");
}

/// What stands before a title: the parent it is part of.
pub open spec fn title_prefix(issue: IssueJsonModel) -> Seq<char> {
    match issue.parent_id {
        Some(parent) => "↳ #"@ + text::decimal(parent as int) + " "@,
        None => Seq::<char>::empty(),
    }
}

/// What stands behind a title: how many of its parts are settled.
pub open spec fn title_suffix(issue: IssueJsonModel) -> Seq<char> {
    if issue.sub_issue_ids.len() == 0 {
        Seq::<char>::empty()
    } else {
        " ["@ + text::decimal(issue.settled_sub_issues as int) + "/"@ + text::decimal(
            issue.sub_issue_ids.len() as int,
        ) + "]"@
    }
}

/// The title of an Issue as a list shows it.
pub open spec fn title_cell_text(issue: IssueJsonModel) -> Seq<char> {
    let used = title_prefix(issue).len() + title_suffix(issue).len();
    let budget = if used < TITLE_WIDTH {
        TITLE_WIDTH - used
    } else {
        0
    };
    title_prefix(issue) + truncated(issue::shown_title(issue.title), budget) + title_suffix(issue)
}

/// The title of an Issue as a list shows it, marked with the parent it is part
/// of and how many of its own parts are settled.
///
/// The API sends the fraction, so a filter that hides a parent's children
/// cannot make it quietly wrong.
pub fn title_cell(issue: &IssueJson) -> (r: String)
    ensures
        r@ == title_cell_text(issue@),
{
    let mut cell = String::new();
    if let Some(parent) = issue.parent_id {
        cell.push_str("↳ #");
        cell.push_str(text::decimal_i64(parent).as_str());
        cell.push_str(" ");
        assert(cell@ =~= title_prefix(issue@));
    }
    assert(cell@ =~= title_prefix(issue@));
    let mut suffix = String::new();
    if issue.sub_issue_ids.len() > 0 {
        suffix.push_str(" [");
        suffix.push_str(text::decimal_u64(issue.settled_sub_issues as u64).as_str());
        suffix.push_str("/");
        suffix.push_str(text::decimal_u64(issue.sub_issue_ids.len() as u64).as_str());
        suffix.push_str("]");
        assert(suffix@ =~= title_suffix(issue@));
    }
    assert(suffix@ =~= title_suffix(issue@));
    let before: usize = text::char_count(cell.as_str());
    let behind: usize = text::char_count(suffix.as_str());
    let budget: usize = if before < TITLE_WIDTH && behind < TITLE_WIDTH - before {
        TITLE_WIDTH - before - behind
    } else {
        0
    };
    cell.push_str(truncate(display_title(issue.title.as_str()), budget).as_str());
    cell.push_str(suffix.as_str());
    cell
}

// ---------------------------------------------------------------------------
// Lists
// ---------------------------------------------------------------------------

/// The width of the id column: that of the widest id, and two at least.
pub open spec fn id_column(issues: Seq<IssueJsonModel>) -> nat
    decreases issues.len(),
{
    if issues.len() == 0 {
        2
    } else {
        let width = text::decimal(issues.last().id as int).len();
        let rest = id_column(issues.drop_last());
        if width > rest {
            width
        } else {
            rest
        }
    }
}

/// The header of a list.
pub open spec fn list_header(id_width: int) -> Seq<char> {
    text::padded_left("ID"@, id_width) + "  "@ + text::padded_right("STATUS"@, STATUS_WIDTH as int)
        + "  "@ + text::padded_right("PRIORITY"@, PRIORITY_WIDTH as int) + "  "@
        + text::padded_left("SIZE"@, SIZE_WIDTH as int) + "  "@ + text::padded_right(
        "TITLE"@,
        TITLE_WIDTH as int,
    ) + "  TAGS\n"@
}

/// The total Size of a family, where there is one.
pub open spec fn size_cell(issue: IssueJsonModel) -> Seq<char> {
    match issue.total_size {
        Some(total) => text::decimal(total as int),
        None => Seq::<char>::empty(),
    }
}

/// One row of a list.
pub open spec fn list_row(issue: IssueJsonModel, id_width: int) -> Seq<SpanModel> {
    seq![plain(text::padded_left(text::decimal(issue.id as int), id_width) + "  "@)] + seq![
        coloured(
            hue_of_status(issue.status),
            text::padded_right(issue.status, STATUS_WIDTH as int) + "  "@,
        ),
    ] + seq![
        coloured(
            hue_of_priority(issue.priority),
            text::padded_right(issue.priority, PRIORITY_WIDTH as int) + "  "@,
        ),
    ] + seq![plain(text::padded_left(size_cell(issue), SIZE_WIDTH as int) + "  "@)] + seq![
        plain(text::padded_right(title_cell_text(issue), TITLE_WIDTH as int) + "  "@),
    ] + seq![dim(text::joined(issue.tags, ", "@) + "\n"@)]
}

/// The rows of a list.
pub open spec fn list_rows(issues: Seq<IssueJsonModel>, id_width: int) -> Seq<SpanModel>
    decreases issues.len(),
{
    if issues.len() == 0 {
        Seq::<SpanModel>::empty()
    } else {
        list_rows(issues.drop_last(), id_width) + list_row(issues.last(), id_width)
    }
}

/// A list of Issues.
pub open spec fn listing(issues: Seq<IssueJsonModel>) -> Seq<SpanModel> {
    if issues.len() == 0 {
        seq![plain("No issues.\n"@)]
    } else {
        seq![dim(list_header(id_column(issues) as int))] + list_rows(
            issues,
            id_column(issues) as int,
        )
    }
}

fn id_width(issues: &Vec<IssueJson>) -> (r: usize)
    ensures
        r == id_column(wire::json_models(issues@)),
{
    let ghost all = wire::json_models(issues@);
    let mut width: usize = 2;
    let mut i: usize = 0;
    while i < issues.len()
        invariant
            i <= issues@.len(),
            all == wire::json_models(issues@),
            width == id_column(all.take(i as int)),
        decreases issues@.len() - i,
    {
        proof {
            assert(all.take(i + 1).drop_last() =~= all.take(i as int));
            assert(all.take(i + 1).last() == issues@[i as int]@);
        }
        let own: usize = text::char_count(text::decimal_i64(issues[i].id).as_str());
        if own > width {
            width = own;
        }
        i += 1;
    }
    assert(all.take(i as int) =~= all);
    width
}

fn spaced(s: String) -> (r: String)
    ensures
        r@ == s@ + "  "@,
{
    let mut spaced = s;
    spaced.push_str("  ");
    spaced
}

fn push_row(out: &mut Vec<Span>, issue: &IssueJson, id_width: usize)
    ensures
        spans(final(out)@) == spans(old(out)@) + list_row(issue@, id_width as int),
{
    let ghost had = spans(out@);
    push_plain(
        out,
        spaced(text::pad_left(text::decimal_i64(issue.id).as_str(), id_width)),
    );
    push_coloured(
        out,
        status_colour(issue.status.as_str()),
        spaced(text::pad_right(issue.status.as_str(), STATUS_WIDTH)),
    );
    push_coloured(
        out,
        priority_colour(issue.priority.as_str()),
        spaced(text::pad_right(issue.priority.as_str(), PRIORITY_WIDTH)),
    );
    // The total, not the Issue's own Size: a Parent's row should say what the
    // whole family comes to.
    let size = match issue.total_size {
        Some(total) => text::decimal_u64(total as u64),
        None => String::new(),
    };
    push_plain(out, spaced(text::pad_left(size.as_str(), SIZE_WIDTH)));
    push_plain(out, spaced(text::pad_right(title_cell(issue).as_str(), TITLE_WIDTH)));
    let mut tags = text::join(&issue.tags, ", ");
    tags.push_str("\n");
    push_dim(out, tags);
    assert(spans(out@) =~= had + list_row(issue@, id_width as int));
}

/// A list of Issues, as a table.
pub fn list(issues: &Vec<IssueJson>) -> (r: Vec<Span>)
    ensures
        spans(r@) == listing(wire::json_models(issues@)),
{
    let mut out: Vec<Span> = Vec::new();
    let ghost none = Seq::<SpanModel>::empty();
    assert(spans(out@) =~= none);
    if issues.len() == 0 {
        push_plain(&mut out, "No issues.\n".to_owned());
        assert(none + seq![plain("No issues.\n"@)] =~= seq![plain("No issues.\n"@)]);
        return out;
    }
    let ghost all = wire::json_models(issues@);
    let width = id_width(issues);
    let mut header = spaced(text::pad_left("ID", width));
    header.push_str(text::pad_right("STATUS", STATUS_WIDTH).as_str());
    header.push_str("  ");
    header.push_str(text::pad_right("PRIORITY", PRIORITY_WIDTH).as_str());
    header.push_str("  ");
    header.push_str(text::pad_left("SIZE", SIZE_WIDTH).as_str());
    header.push_str("  ");
    header.push_str(text::pad_right("TITLE", TITLE_WIDTH).as_str());
    header.push_str("  TAGS\n");
    push_dim(&mut out, header);
    let ghost top = seq![dim(list_header(width as int))];
    assert(spans(out@) =~= top);
    let mut i: usize = 0;
    assert(top + list_rows(all.take(0), width as int) =~= top);
    while i < issues.len()
        invariant
            i <= issues@.len(),
            all == wire::json_models(issues@),
            spans(out@) == top + list_rows(all.take(i as int), width as int),
        decreases issues@.len() - i,
    {
        proof {
            assert(all.take(i + 1).drop_last() =~= all.take(i as int));
            assert(all.take(i + 1).last() == issues@[i as int]@);
            assert(top + list_rows(all.take(i as int), width as int) + list_row(
                issues@[i as int]@,
                width as int,
            ) =~= top + (list_rows(all.take(i as int), width as int) + list_row(
                issues@[i as int]@,
                width as int,
            )));
        }
        push_row(&mut out, &issues[i], width);
        i += 1;
    }
    assert(all.take(i as int) =~= all);
    out
}

// ---------------------------------------------------------------------------
// Tags
// ---------------------------------------------------------------------------

/// The width of the name column: the length of the longest name, in bytes.
pub open spec fn name_column(tags: Seq<TagJsonModel>) -> nat
    decreases tags.len(),
{
    if tags.len() == 0 {
        0
    } else {
        let width = vstd::utf8::encode_utf8(tags.last().name).len();
        let rest = name_column(tags.drop_last());
        if width > rest {
            width
        } else {
            rest
        }
    }
}

/// The rows of a list of Tags.
pub open spec fn tag_rows(tags: Seq<TagJsonModel>, width: int) -> Seq<SpanModel>
    decreases tags.len(),
{
    if tags.len() == 0 {
        Seq::<SpanModel>::empty()
    } else {
        tag_rows(tags.drop_last(), width) + seq![
            plain(text::padded_right(tags.last().name, width) + "  "@),
        ] + seq![dim(text::decimal(tags.last().count as int) + "\n"@)]
    }
}

/// A list of Tags.
pub open spec fn tag_listing(tags: Seq<TagJsonModel>) -> Seq<SpanModel> {
    if tags.len() == 0 {
        seq![plain("No tags.\n"@)]
    } else {
        tag_rows(tags, name_column(tags) as int)
    }
}

/// The Tags in use, with their counts.
pub fn tags(list: &Vec<TagJson>) -> (r: Vec<Span>)
    ensures
        spans(r@) == tag_listing(wire::tag_models(list@)),
{
    let mut out: Vec<Span> = Vec::new();
    let ghost none = Seq::<SpanModel>::empty();
    let ghost all = wire::tag_models(list@);
    assert(spans(out@) =~= none);
    if list.len() == 0 {
        push_plain(&mut out, "No tags.\n".to_owned());
        assert(none + seq![plain("No tags.\n"@)] =~= seq![plain("No tags.\n"@)]);
        return out;
    }
    let mut width: usize = 0;
    let mut i: usize = 0;
    while i < list.len()
        invariant
            i <= list@.len(),
            all == wire::tag_models(list@),
            width == name_column(all.take(i as int)),
        decreases list@.len() - i,
    {
        proof {
            assert(all.take(i + 1).drop_last() =~= all.take(i as int));
            assert(all.take(i + 1).last() == list@[i as int]@);
        }
        let own: usize = list[i].name.as_str().as_bytes().len();
        if own > width {
            width = own;
        }
        i += 1;
    }
    assert(all.take(i as int) =~= all);
    let mut j: usize = 0;
    assert(all.take(0) =~= Seq::<TagJsonModel>::empty());
    while j < list.len()
        invariant
            j <= list@.len(),
            all == wire::tag_models(list@),
            spans(out@) == tag_rows(all.take(j as int), width as int),
        decreases list@.len() - j,
    {
        proof {
            assert(all.take(j + 1).drop_last() =~= all.take(j as int));
            assert(all.take(j + 1).last() == list@[j as int]@);
        }
        push_plain(&mut out, spaced(text::pad_right(list[j].name.as_str(), width)));
        let mut count = text::decimal_u64(list[j].count as u64);
        count.push_str("\n");
        push_dim(&mut out, count);
        j += 1;
    }
    assert(all.take(j as int) =~= all);
    out
}

// ---------------------------------------------------------------------------
// One Issue
// ---------------------------------------------------------------------------

/// Whether the counts an Issue came with make sense together.
pub open spec fn counts_agree(issue: IssueJsonModel) -> bool {
    &&& issue.settled_sub_issues <= issue.sub_issue_ids.len()
    &&& issue.total_size is Some && issue.sub_issue_ids.len() > 0 ==> issue.unsized_sub_issues
        <= issue.sub_issue_ids.len()
}

/// Whether the counts of an Issue agree with each other.
pub fn counts_fit(issue: &IssueJson) -> (r: bool)
    ensures
        r == counts_agree(issue@),
{
    let parts: usize = issue.sub_issue_ids.len();
    issue.settled_sub_issues <= parts && (issue.total_size.is_none() || parts == 0
        || issue.unsized_sub_issues <= parts)
}

/// The first line, and the Status.
pub open spec fn show_top(issue: IssueJsonModel) -> Seq<SpanModel> {
    let outstanding = issue.sub_issue_ids.len() - issue.settled_sub_issues;
    seq![
        plain(
            "#"@ + text::decimal(issue.id as int) + " "@ + issue::shown_title(issue.title) + "\n"@,
        ),
    ] + seq![plain("  Status    "@)] + seq![coloured(hue_of_status(issue.status), issue.status)] + (
    if outstanding > 0 {
        seq![dim("  ("@ + text::decimal(outstanding) + " sub-issue(s) outstanding)"@)]
    } else {
        Seq::<SpanModel>::empty()
    }) + seq![plain("\n"@)]
}

/// The Priority.
pub open spec fn show_priority(issue: IssueJsonModel) -> Seq<SpanModel> {
    seq![plain("  Priority  "@)] + seq![
        coloured(hue_of_priority(issue.priority), issue.priority + "\n"@),
    ]
}

/// The Sizes. Absent when nothing in the family carries one: a tracker that
/// never sizes anything should not grow a row saying so.
pub open spec fn show_size(issue: IssueJsonModel) -> Seq<SpanModel> {
    match issue.total_size {
        None => Seq::<SpanModel>::empty(),
        Some(total) => {
            let own = match issue.size {
                Some(own) => text::decimal(own as int),
                None => "\u{2013}"@,
            };
            let sized = issue.sub_issue_ids.len() - issue.unsized_sub_issues;
            seq![plain("  Size      "@ + own)] + (if issue.sub_issue_ids.len() > 0 {
                seq![plain("  "@)] + seq![
                    dim(
                        "(total "@ + text::decimal(total as int) + ", "@ + text::decimal(sized)
                            + " of "@ + text::decimal(issue.sub_issue_ids.len() as int)
                            + " part(s) sized)"@,
                    ),
                ]
            } else {
                Seq::<SpanModel>::empty()
            }) + seq![plain("\n"@)]
        },
    }
}

/// The Tags, where there are any.
pub open spec fn show_tags(issue: IssueJsonModel) -> Seq<SpanModel> {
    if issue.tags.len() > 0 {
        seq![plain("  Tags      "@ + text::joined(issue.tags, ", "@) + "\n"@)]
    } else {
        Seq::<SpanModel>::empty()
    }
}

/// The parent, where there is one. A title rather than a bare id: an id you
/// then have to look up is not an answer.
pub open spec fn show_parent(parent: Option<IssueJsonModel>) -> Seq<SpanModel> {
    match parent {
        Some(parent) => seq![
            plain(
                "  Part of   #"@ + text::decimal(parent.id as int) + " "@ + issue::shown_title(
                    parent.title,
                ) + "\n"@,
            ),
        ],
        None => Seq::<SpanModel>::empty(),
    }
}

/// One part.
pub open spec fn child_row(child: IssueJsonModel) -> Seq<SpanModel> {
    seq![plain("    #"@ + text::padded_right(text::decimal(child.id as int), 5) + " "@)] + seq![
        coloured(
            hue_of_status(child.status),
            text::padded_right(child.status, STATUS_WIDTH as int),
        ),
    ] + seq![plain("  "@ + issue::shown_title(child.title) + "\n"@)]
}

/// The parts, one to a row.
pub open spec fn child_rows(children: Seq<IssueJsonModel>) -> Seq<SpanModel>
    decreases children.len(),
{
    if children.len() == 0 {
        Seq::<SpanModel>::empty()
    } else {
        child_rows(children.drop_last()) + child_row(children.last())
    }
}

/// The parts, where there are any.
pub open spec fn show_children(
    issue: IssueJsonModel,
    children: Seq<IssueJsonModel>,
) -> Seq<SpanModel> {
    if children.len() > 0 {
        seq![
            plain(
                "  Sub-issues ("@ + text::decimal(issue.settled_sub_issues as int) + "/"@
                    + text::decimal(children.len() as int) + " done)\n"@,
            ),
        ] + child_rows(children)
    } else {
        Seq::<SpanModel>::empty()
    }
}

/// When the Issue was filed and last changed.
pub open spec fn show_times(created: Seq<char>, updated: Seq<char>) -> Seq<SpanModel> {
    seq![dim("  Created   "@ + created + "\n  Updated   "@ + updated + "\n"@)]
}

/// The body, where there is one.
pub open spec fn show_body(issue: IssueJsonModel) -> Seq<SpanModel> {
    if text::trimmed(issue.body).len() > 0 {
        seq![plain("\n"@ + text::trimmed_end(issue.body) + "\n"@)]
    } else {
        Seq::<SpanModel>::empty()
    }
}

/// One Issue in full.
pub open spec fn showing(
    issue: IssueJsonModel,
    parent: Option<IssueJsonModel>,
    children: Seq<IssueJsonModel>,
    created: Seq<char>,
    updated: Seq<char>,
) -> Seq<SpanModel> {
    show_top(issue) + show_priority(issue) + show_size(issue) + show_tags(issue) + show_parent(
        parent,
    ) + show_children(issue, children) + show_times(created, updated) + show_body(issue)
}

/// The model of an optional Issue.
pub open spec fn optional_issue(issue: Option<&IssueJson>) -> Option<IssueJsonModel> {
    match issue {
        Some(issue) => Some(issue@),
        None => None,
    }
}

fn push_top(out: &mut Vec<Span>, issue: &IssueJson)
    requires
        counts_agree(issue@),
    ensures
        spans(final(out)@) == spans(old(out)@) + show_top(issue@),
{
    let ghost had = spans(out@);
    let mut first = "#".to_owned();
    first.push_str(text::decimal_i64(issue.id).as_str());
    first.push_str(" ");
    first.push_str(display_title(issue.title.as_str()));
    first.push_str("\n");
    push_plain(out, first);
    push_plain(out, "  Status    ".to_owned());
    push_coloured(out, status_colour(issue.status.as_str()), issue.status.clone());
    let outstanding: usize = issue.sub_issue_ids.len() - issue.settled_sub_issues;
    if outstanding > 0 {
        let mut note = "  (".to_owned();
        note.push_str(text::decimal_u64(outstanding as u64).as_str());
        note.push_str(" sub-issue(s) outstanding)");
        push_dim(out, note);
    }
    push_plain(out, "\n".to_owned());
    assert(spans(out@) =~= had + show_top(issue@));
}

fn push_priority(out: &mut Vec<Span>, issue: &IssueJson)
    ensures
        spans(final(out)@) == spans(old(out)@) + show_priority(issue@),
{
    let ghost had = spans(out@);
    push_plain(out, "  Priority  ".to_owned());
    let mut line = issue.priority.clone();
    line.push_str("\n");
    push_coloured(out, priority_colour(issue.priority.as_str()), line);
    assert(spans(out@) =~= had + show_priority(issue@));
}

fn push_size(out: &mut Vec<Span>, issue: &IssueJson)
    requires
        counts_agree(issue@),
    ensures
        spans(final(out)@) == spans(old(out)@) + show_size(issue@),
{
    let ghost had = spans(out@);
    if let Some(total) = issue.total_size {
        let mut line = "  Size      ".to_owned();
        // An en dash for a Parent that carries no Size of its own: its parts
        // account for all of it.
        match issue.size {
            Some(own) => line.push_str(text::decimal_u64(own as u64).as_str()),
            None => line.push_str("\u{2013}"),
        }
        push_plain(out, line);
        if issue.sub_issue_ids.len() > 0 {
            let sized: usize = issue.sub_issue_ids.len() - issue.unsized_sub_issues;
            push_plain(out, "  ".to_owned());
            let mut note = "(total ".to_owned();
            note.push_str(text::decimal_u64(total as u64).as_str());
            note.push_str(", ");
            note.push_str(text::decimal_u64(sized as u64).as_str());
            note.push_str(" of ");
            note.push_str(text::decimal_u64(issue.sub_issue_ids.len() as u64).as_str());
            note.push_str(" part(s) sized)");
            push_dim(out, note);
        }
        push_plain(out, "\n".to_owned());
    }
    assert(spans(out@) =~= had + show_size(issue@));
}

fn push_tags(out: &mut Vec<Span>, issue: &IssueJson)
    ensures
        spans(final(out)@) == spans(old(out)@) + show_tags(issue@),
{
    let ghost had = spans(out@);
    assert(issue@.tags.len() == issue.tags@.len());
    if issue.tags.len() > 0 {
        let mut line = "  Tags      ".to_owned();
        line.push_str(text::join(&issue.tags, ", ").as_str());
        line.push_str("\n");
        push_plain(out, line);
    }
    assert(spans(out@) =~= had + show_tags(issue@));
}

fn push_parent(out: &mut Vec<Span>, parent: Option<&IssueJson>)
    ensures
        spans(final(out)@) == spans(old(out)@) + show_parent(optional_issue(parent)),
{
    let ghost had = spans(out@);
    if let Some(parent) = parent {
        let mut line = "  Part of   #".to_owned();
        line.push_str(text::decimal_i64(parent.id).as_str());
        line.push_str(" ");
        line.push_str(display_title(parent.title.as_str()));
        line.push_str("\n");
        push_plain(out, line);
    }
    assert(spans(out@) =~= had + show_parent(optional_issue(parent)));
}

fn push_child(out: &mut Vec<Span>, child: &IssueJson)
    ensures
        spans(final(out)@) == spans(old(out)@) + child_row(child@),
{
    let ghost had = spans(out@);
    let mut number = "    #".to_owned();
    number.push_str(text::pad_right(text::decimal_i64(child.id).as_str(), 5).as_str());
    number.push_str(" ");
    push_plain(out, number);
    push_coloured(
        out,
        status_colour(child.status.as_str()),
        text::pad_right(child.status.as_str(), STATUS_WIDTH),
    );
    let mut title = "  ".to_owned();
    title.push_str(display_title(child.title.as_str()));
    title.push_str("\n");
    push_plain(out, title);
    assert(spans(out@) =~= had + child_row(child@));
}

fn push_children(out: &mut Vec<Span>, issue: &IssueJson, children: &Vec<IssueJson>)
    ensures
        spans(final(out)@) == spans(old(out)@) + show_children(
            issue@,
            wire::json_models(children@),
        ),
{
    let ghost had = spans(out@);
    let ghost all = wire::json_models(children@);
    if children.len() == 0 {
        assert(spans(out@) =~= had + show_children(issue@, all));
        return;
    }
    let mut line = "  Sub-issues (".to_owned();
    line.push_str(text::decimal_u64(issue.settled_sub_issues as u64).as_str());
    line.push_str("/");
    line.push_str(text::decimal_u64(children.len() as u64).as_str());
    line.push_str(" done)\n");
    push_plain(out, line);
    let ghost top = spans(out@);
    let mut i: usize = 0;
    assert(top + child_rows(all.take(0)) =~= top);
    while i < children.len()
        invariant
            i <= children@.len(),
            all == wire::json_models(children@),
            spans(out@) == top + child_rows(all.take(i as int)),
        decreases children@.len() - i,
    {
        proof {
            assert(all.take(i + 1).drop_last() =~= all.take(i as int));
            assert(all.take(i + 1).last() == children@[i as int]@);
            assert(top + child_rows(all.take(i as int)) + child_row(children@[i as int]@) =~= top + (
            child_rows(all.take(i as int)) + child_row(children@[i as int]@)));
        }
        push_child(out, &children[i]);
        i += 1;
    }
    assert(all.take(i as int) =~= all);
    assert(spans(out@) =~= had + show_children(issue@, all));
}

/// One Issue in full, with its neighbours named and its timestamps as they are
/// to be read.
pub fn show_at(
    issue: &IssueJson,
    parent: Option<&IssueJson>,
    children: &Vec<IssueJson>,
    created: &str,
    updated: &str,
) -> (r: Vec<Span>)
    requires
        counts_agree(issue@),
    ensures
        spans(r@) == showing(
            issue@,
            optional_issue(parent),
            wire::json_models(children@),
            created@,
            updated@,
        ),
        laws::stands_in("Created   "@ + created@ + "\n"@, pages::printed(spans(r@))),
        laws::stands_in("Updated   "@ + updated@ + "\n"@, pages::printed(spans(r@))),
{
    proof {
        pages::a_page_tells_which_moment_is_which(
            issue@,
            optional_issue(parent),
            wire::json_models(children@),
            created@,
            updated@,
        );
    }
    let mut out: Vec<Span> = Vec::new();
    push_top(&mut out, issue);
    assert(spans(out@) =~= show_top(issue@));
    push_priority(&mut out, issue);
    push_size(&mut out, issue);
    push_tags(&mut out, issue);
    // Titles rather than bare ids: an id you then have to look up is not an
    // answer.
    push_parent(&mut out, parent);
    push_children(&mut out, issue, children);
    let mut times = "  Created   ".to_owned();
    times.push_str(created);
    times.push_str("\n  Updated   ");
    times.push_str(updated);
    times.push_str("\n");
    push_dim(&mut out, times);
    let ghost before_body = spans(out@);
    if text::char_count(text::trim(issue.body.as_str()).as_str()) > 0 {
        let mut body = "\n".to_owned();
        body.push_str(text::trim_end(issue.body.as_str()).as_str());
        body.push_str("\n");
        push_plain(&mut out, body);
    }
    assert(spans(out@) =~= before_body + show_body(issue@));
    out
}

/// One Issue in full, with its neighbours named and its timestamps in the
/// machine's own time.
///
/// RFC 3339 with microseconds is right on the wire and noise on a screen.
pub fn show(issue: &IssueJson, parent: Option<&IssueJson>, children: &Vec<IssueJson>) -> (r: Vec<
    Span,
>)
    requires
        counts_agree(issue@),
    ensures
        exists|created: Seq<char>, updated: Seq<char>|
            time::is_shown_time(issue@.created_at, created) && time::is_shown_time(
                issue@.updated_at,
                updated,
            ) && laws::stands_in("Created   "@ + created + "\n"@, pages::printed(spans(r@)))
                && laws::stands_in("Updated   "@ + updated + "\n"@, pages::printed(spans(r@)))
                && spans(r@) == #[trigger] showing(
                issue@,
                optional_issue(parent),
                wire::json_models(children@),
                created,
                updated,
            ),
{
    let created = time::local_minutes(issue.created_at.as_str());
    let updated = time::local_minutes(issue.updated_at.as_str());
    show_at(issue, parent, children, created.as_str(), updated.as_str())
}

} // verus!
