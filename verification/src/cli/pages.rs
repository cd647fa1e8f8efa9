//! What the printed pages hold, said of the text itself.

use vstd::prelude::*;

use crate::api::wire::{IssueJsonModel, TagJsonModel};
use crate::cli::render;
use crate::cli::render::{Hue, Ink, SpanModel};
use crate::domain::issue;
use crate::domain::laws;
use crate::text;

verus! {

/// The text that some spans come to, one behind the other.
pub open spec fn printed(list: Seq<SpanModel>) -> Seq<char>
    decreases list.len(),
{
    if list.len() == 0 {
        Seq::<char>::empty()
    } else {
        printed(list.drop_last()) + list.last().text
    }
}

proof fn lemma_printed_joined(a: Seq<SpanModel>, b: Seq<SpanModel>)
    ensures
        printed(a + b) == printed(a) + printed(b),
    decreases b.len(),
{
    if b.len() == 0 {
        assert(a + b =~= a);
        assert(printed(a) + printed(b) =~= printed(a));
    } else {
        assert((a + b).drop_last() =~= a + b.drop_last());
        lemma_printed_joined(a, b.drop_last());
        assert(printed(a) + printed(b.drop_last()) + b.last().text =~= printed(a) + printed(b));
    }
}

proof fn lemma_printed_one(one: SpanModel)
    ensures
        printed(seq![one]) == one.text,
{
    assert(seq![one].drop_last() =~= Seq::<SpanModel>::empty());
    assert(printed(Seq::<SpanModel>::empty()) =~= Seq::<char>::empty());
    assert(Seq::<char>::empty() + one.text =~= one.text);
}

proof fn lemma_printed_none()
    ensures
        printed(Seq::<SpanModel>::empty()) == Seq::<char>::empty(),
{
}

// ---------------------------------------------------------------------------
// One Issue
// ---------------------------------------------------------------------------

/// The line that tells a Size, where anything in the family has one.
pub open spec fn size_line(issue: IssueJsonModel) -> Seq<char> {
    let parts = issue.sub_issue_ids.len();
    if issue.total_size is None {
        ""@
    } else {
        "  Size      "@ + (if issue.size is Some {
            text::decimal(issue.size->0 as int)
        } else {
            "\u{2013}"@
        }) + (if parts == 0 {
            ""@
        } else {
            "  (total "@ + text::decimal(issue.total_size->0 as int) + ", "@ + text::decimal(
                parts - issue.unsized_sub_issues,
            ) + " of "@ + text::decimal(parts as int) + " part(s) sized)"@
        }) + "\n"@
    }
}

/// The lines that tell an Issue's number and title, and its Status.
pub open spec fn top_lines(issue: IssueJsonModel) -> Seq<char> {
    let open_parts = issue.sub_issue_ids.len() - issue.settled_sub_issues;
    "#"@ + text::decimal(issue.id as int) + " "@ + issue::shown_title(issue.title) + "\n"@
        + "  Status    "@ + issue.status + (if open_parts > 0 {
        "  ("@ + text::decimal(open_parts) + " sub-issue(s) outstanding)"@
    } else {
        ""@
    }) + "\n"@
}

/// The page of an Issue up to its moments.
pub open spec fn upper_page(
    issue: IssueJsonModel,
    parent: Option<IssueJsonModel>,
    children: Seq<IssueJsonModel>,
) -> Seq<char> {
    let priority = "  Priority  "@ + (issue.priority + "\n"@);
    let tags = if issue.tags.len() > 0 {
        "  Tags      "@ + text::joined(issue.tags, ", "@) + "\n"@
    } else {
        ""@
    };
    let above = if parent is Some {
        "  Part of   #"@ + text::decimal(parent->0.id as int) + " "@ + issue::shown_title(
            parent->0.title,
        ) + "\n"@
    } else {
        ""@
    };
    let below = if children.len() > 0 {
        "  Sub-issues ("@ + text::decimal(issue.settled_sub_issues as int) + "/"@ + text::decimal(
            children.len() as int,
        ) + " done)\n"@ + printed(render::child_rows(children))
    } else {
        ""@
    };
    top_lines(issue) + priority + size_line(issue) + tags + above + below
}

/// The lines that tell an Issue's two moments.
pub open spec fn moment_lines(created: Seq<char>, updated: Seq<char>) -> Seq<char> {
    "  Created   "@ + created + "\n  Updated   "@ + updated + "\n"@
}

/// The page of an Issue reads, line by line: its number and title, its Status
/// with how many parts are outstanding, its Priority, its Size where the family
/// has one, its Tags, what it is part of, its parts, when it was created, when it
/// was last updated, and its body.
pub proof fn a_page_tells_everything_of_an_issue(
    issue: IssueJsonModel,
    parent: Option<IssueJsonModel>,
    children: Seq<IssueJsonModel>,
    created: Seq<char>,
    updated: Seq<char>,
)
    ensures
        printed(render::showing(issue, parent, children, created, updated)) == upper_page(
            issue,
            parent,
            children,
        ) + moment_lines(created, updated) + (if exists|i: int|
            0 <= i < issue.body.len() && !text::is_white_space(#[trigger] issue.body[i]) {
            "\n"@ + text::trimmed_end(issue.body) + "\n"@
        } else {
            ""@
        }),
{
    lemma_nothing();
    text::trimming_takes_white_space_alone(issue.body);
    let top = render::show_top(issue);
    let a = top + render::show_priority(issue);
    let b = a + render::show_size(issue);
    let c = b + render::show_tags(issue);
    let d = c + render::show_parent(parent);
    let e = d + render::show_children(issue, children);
    let f = e + render::show_times(created, updated);
    lemma_printed_joined(top, render::show_priority(issue));
    lemma_printed_joined(a, render::show_size(issue));
    lemma_printed_joined(b, render::show_tags(issue));
    lemma_printed_joined(c, render::show_parent(parent));
    lemma_printed_joined(d, render::show_children(issue, children));
    lemma_printed_joined(e, render::show_times(created, updated));
    lemma_printed_joined(f, render::show_body(issue));
    lemma_top(issue);
    lemma_priority(issue);
    lemma_size(issue);
    if issue.tags.len() > 0 {
        lemma_printed_one(
            render::plain("  Tags      "@ + text::joined(issue.tags, ", "@) + "\n"@),
        );
    }
    if let Some(above) = parent {
        lemma_printed_one(
            render::plain(
                "  Part of   #"@ + text::decimal(above.id as int) + " "@ + issue::shown_title(
                    above.title,
                ) + "\n"@,
            ),
        );
    }
    if children.len() > 0 {
        let head = render::plain(
            "  Sub-issues ("@ + text::decimal(issue.settled_sub_issues as int) + "/"@
                + text::decimal(children.len() as int) + " done)\n"@,
        );
        lemma_printed_one(head);
        lemma_printed_joined(seq![head], render::child_rows(children));
    }
    lemma_printed_one(render::dim(moment_lines(created, updated)));
    if text::trimmed(issue.body).len() > 0 {
        lemma_printed_one(render::plain("\n"@ + text::trimmed_end(issue.body) + "\n"@));
    }
}

proof fn lemma_nothing()
    ensures
        ""@ == Seq::<char>::empty(),
        printed(Seq::<SpanModel>::empty()) == ""@,
{
    reveal_strlit("");
    assert(""@ =~= Seq::<char>::empty());
}

proof fn lemma_top(issue: IssueJsonModel)
    ensures
        printed(render::show_top(issue)) == top_lines(issue),
{
    lemma_nothing();
    let outstanding = issue.sub_issue_ids.len() - issue.settled_sub_issues;
    let one = seq![
        render::plain(
            "#"@ + text::decimal(issue.id as int) + " "@ + issue::shown_title(issue.title) + "\n"@,
        ),
    ];
    let two = seq![render::plain("  Status    "@)];
    let three = seq![render::coloured(render::hue_of_status(issue.status), issue.status)];
    let four = if outstanding > 0 {
        seq![
            render::dim("  ("@ + text::decimal(outstanding) + " sub-issue(s) outstanding)"@),
        ]
    } else {
        Seq::<SpanModel>::empty()
    };
    let five = seq![render::plain("\n"@)];
    assert(render::show_top(issue) == one + two + three + four + five);
    lemma_printed_joined(one, two);
    lemma_printed_joined(one + two, three);
    lemma_printed_joined(one + two + three, four);
    lemma_printed_joined(one + two + three + four, five);
    lemma_printed_one(one[0]);
    lemma_printed_one(two[0]);
    lemma_printed_one(three[0]);
    lemma_printed_none();
    if outstanding > 0 {
        lemma_printed_one(four[0]);
        assert(four =~= seq![four[0]]);
    }
    lemma_printed_one(five[0]);
}

proof fn lemma_priority(issue: IssueJsonModel)
    ensures
        printed(render::show_priority(issue)) == "  Priority  "@ + (issue.priority + "\n"@),
{
    let one = render::plain("  Priority  "@);
    let two = render::coloured(
        render::hue_of_priority(issue.priority),
        issue.priority + "\n"@,
    );
    lemma_printed_one(one);
    lemma_printed_one(two);
    lemma_printed_joined(seq![one], seq![two]);
}

proof fn lemma_size(issue: IssueJsonModel)
    ensures
        printed(render::show_size(issue)) == size_line(issue),
{
    reveal_strlit("");
    reveal_strlit("  ");
    reveal_strlit("(total ");
    reveal_strlit("  (total ");
    lemma_printed_none();
    if let Some(total) = issue.total_size {
        let own = match issue.size {
            Some(own) => text::decimal(own as int),
            None => "\u{2013}"@,
        };
        let sized = issue.sub_issue_ids.len() - issue.unsized_sub_issues;
        let one = seq![render::plain("  Size      "@ + own)];
        let gap = seq![render::plain("  "@)];
        let told = seq![
            render::dim(
                "(total "@ + text::decimal(total as int) + ", "@ + text::decimal(sized) + " of "@
                    + text::decimal(issue.sub_issue_ids.len() as int) + " part(s) sized)"@,
            ),
        ];
        let end = seq![render::plain("\n"@)];
        lemma_printed_one(one[0]);
        lemma_printed_one(gap[0]);
        lemma_printed_one(told[0]);
        lemma_printed_one(end[0]);
        lemma_printed_joined(gap, told);
        if issue.sub_issue_ids.len() > 0 {
            lemma_printed_joined(one, gap + told);
            lemma_printed_joined(one + (gap + told), end);
            assert("  "@ + "(total "@ =~= "  (total "@);
        } else {
            lemma_printed_joined(one, Seq::<SpanModel>::empty());
            lemma_printed_joined(one + Seq::<SpanModel>::empty(), end);
        }
        assert(printed(render::show_size(issue)) =~= size_line(issue));
    }
}

/// Each part has a line of its own on the page, in order: its number, its Status
/// and its title.
pub proof fn a_part_has_a_line(children: Seq<IssueJsonModel>, child: IssueJsonModel)
    ensures
        printed(render::child_rows(Seq::<IssueJsonModel>::empty())).len() == 0,
        printed(render::child_rows(children.push(child))) == printed(render::child_rows(children))
            + "    #"@ + text::padded_right(text::decimal(child.id as int), 5) + " "@
            + text::padded_right(child.status, 9) + "  "@ + issue::shown_title(child.title)
            + "\n"@,
{
    assert(children.push(child).drop_last() =~= children);
    let one = render::plain(
        "    #"@ + text::padded_right(text::decimal(child.id as int), 5) + " "@,
    );
    let two = render::coloured(
        render::hue_of_status(child.status),
        text::padded_right(child.status, 9),
    );
    let three = render::plain("  "@ + issue::shown_title(child.title) + "\n"@);
    lemma_printed_one(one);
    lemma_printed_one(two);
    lemma_printed_one(three);
    lemma_printed_joined(seq![one], seq![two]);
    lemma_printed_joined(seq![one] + seq![two], seq![three]);
    lemma_printed_joined(render::child_rows(children), render::child_row(child));
    assert(printed(render::child_rows(children.push(child))) =~= printed(
        render::child_rows(children),
    ) + "    #"@ + text::padded_right(text::decimal(child.id as int), 5) + " "@
        + text::padded_right(child.status, 9) + "  "@ + issue::shown_title(child.title) + "\n"@);
}

/// The page of an Issue holds `Created` directly followed by the one moment and
/// `Updated` directly followed by the other.
pub proof fn a_page_tells_which_moment_is_which(
    issue: IssueJsonModel,
    parent: Option<IssueJsonModel>,
    children: Seq<IssueJsonModel>,
    created: Seq<char>,
    updated: Seq<char>,
)
    ensures
        ({
            let page = printed(render::showing(issue, parent, children, created, updated));
            &&& laws::stands_in("Created   "@ + created + "\n"@, page)
            &&& laws::stands_in("Updated   "@ + updated + "\n"@, page)
        }),
{
    a_page_tells_everything_of_an_issue(issue, parent, children, created, updated);
    let upper = upper_page(issue, parent, children);
    let moments = moment_lines(created, updated);
    let body = if exists|i: int|
        0 <= i < issue.body.len() && !text::is_white_space(#[trigger] issue.body[i]) {
        "\n"@ + text::trimmed_end(issue.body) + "\n"@
    } else {
        ""@
    };
    lemma_moments(created, updated);
    laws::lemma_stands_within("Created   "@ + created + "\n"@, upper, moments, body);
    laws::lemma_stands_within("Updated   "@ + updated + "\n"@, upper, moments, body);
}

proof fn lemma_moments(created: Seq<char>, updated: Seq<char>)
    ensures
        laws::stands_in("Created   "@ + created + "\n"@, moment_lines(created, updated)),
        laws::stands_in("Updated   "@ + updated + "\n"@, moment_lines(created, updated)),
{
    reveal_strlit("  Created   ");
    reveal_strlit("Created   ");
    reveal_strlit("\n  Updated   ");
    reveal_strlit("Updated   ");
    reveal_strlit("\n");
    let all = moment_lines(created, updated);
    let gap = seq![' ', ' '];
    let head = "Created   "@ + created + "\n"@;
    let tail = gap + "Updated   "@ + updated + "\n"@;
    assert(all =~= gap + head + tail);
    let start = "  Created   "@ + created + seq!['\n', ' ', ' '];
    let last = "Updated   "@ + updated + "\n"@;
    assert(all =~= start + last + Seq::<char>::empty());
}

// ---------------------------------------------------------------------------
// Lists
// ---------------------------------------------------------------------------

/// A line of the list: the number to the right of its column, the Status, the
/// Priority, the total Size, the title with what the Issue is part of and how far
/// its parts are, and the Tags.
pub open spec fn list_line(one: IssueJsonModel, width: int) -> Seq<char> {
    let number = text::padded_left(text::decimal(one.id as int), width) + "  "@;
    let status = text::padded_right(one.status, 9) + "  "@;
    let priority = text::padded_right(one.priority, 8) + "  "@;
    let total = if one.total_size is Some {
        text::decimal(one.total_size->0 as int)
    } else {
        ""@
    };
    let size = text::padded_left(total, 5) + "  "@;
    let title = text::padded_right(render::title_cell_text(one), 52) + "  "@;
    let tags = text::joined(one.tags, ", "@) + "\n"@;
    number + status + priority + size + title + tags
}

/// A list of Issues has a header and then a line for each, in order.
pub proof fn a_list_has_a_line_for_each_issue(
    issues: Seq<IssueJsonModel>,
    one: IssueJsonModel,
    width: int,
)
    ensures
        printed(render::listing(Seq::<IssueJsonModel>::empty())) == "No issues.\n"@,
        issues.len() > 0 ==> printed(render::listing(issues)) == (text::padded_left(
            "ID"@,
            render::id_column(issues) as int,
        ) + "  "@ + text::padded_right("STATUS"@, 9) + "  "@ + text::padded_right("PRIORITY"@, 8)
            + "  "@ + text::padded_left("SIZE"@, 5) + "  "@ + text::padded_right("TITLE"@, 52)
            + "  TAGS\n"@) + printed(
            render::list_rows(issues, render::id_column(issues) as int),
        ),
        printed(render::list_rows(Seq::<IssueJsonModel>::empty(), width)).len() == 0,
        printed(render::list_rows(issues.push(one), width)) == printed(
            render::list_rows(issues, width),
        ) + list_line(one, width),
{
    lemma_nothing();
    lemma_printed_one(render::plain("No issues.\n"@));
    if issues.len() > 0 {
        let w = render::id_column(issues) as int;
        let head = render::dim(render::list_header(w));
        lemma_printed_one(head);
        lemma_printed_joined(seq![head], render::list_rows(issues, w));
    }
    assert(issues.push(one).drop_last() =~= issues);
    lemma_printed_joined(render::list_rows(issues, width), render::list_row(one, width));
    let a = seq![
        render::plain(text::padded_left(text::decimal(one.id as int), width) + "  "@),
    ];
    let b = seq![
        render::coloured(
            render::hue_of_status(one.status),
            text::padded_right(one.status, 9) + "  "@,
        ),
    ];
    let c = seq![
        render::coloured(
            render::hue_of_priority(one.priority),
            text::padded_right(one.priority, 8) + "  "@,
        ),
    ];
    let d = seq![render::plain(text::padded_left(render::size_cell(one), 5) + "  "@)];
    let e = seq![
        render::plain(text::padded_right(render::title_cell_text(one), 52) + "  "@),
    ];
    let f = seq![render::dim(text::joined(one.tags, ", "@) + "\n"@)];
    assert(render::list_row(one, width) == a + b + c + d + e + f);
    lemma_printed_joined(a, b);
    lemma_printed_joined(a + b, c);
    lemma_printed_joined(a + b + c, d);
    lemma_printed_joined(a + b + c + d, e);
    lemma_printed_joined(a + b + c + d + e, f);
    lemma_printed_one(a[0]);
    lemma_printed_one(b[0]);
    lemma_printed_one(c[0]);
    lemma_printed_one(d[0]);
    lemma_printed_one(e[0]);
    lemma_printed_one(f[0]);
}

/// The column of numbers is as wide as the widest of them, and never narrower
/// than its heading.
pub proof fn the_number_column_fits(issues: Seq<IssueJsonModel>)
    ensures
        render::id_column(issues) >= 2,
        forall|i: int|
            0 <= i < issues.len() ==> text::decimal((#[trigger] issues[i]).id as int).len()
                <= render::id_column(issues),
        render::id_column(issues) == 2 || exists|i: int|
            0 <= i < issues.len() && text::decimal((#[trigger] issues[i]).id as int).len()
                == render::id_column(issues),
    decreases issues.len(),
{
    if issues.len() > 0 {
        let rest = issues.drop_last();
        the_number_column_fits(rest);
        assert forall|i: int| 0 <= i < issues.len() implies text::decimal(
            (#[trigger] issues[i]).id as int,
        ).len() <= render::id_column(issues) by {
            if i < rest.len() {
                assert(rest[i] == issues[i]);
            }
        }
        let last = issues.len() - 1;
        if render::id_column(issues) == text::decimal(issues.last().id as int).len() {
            assert(text::decimal(issues[last].id as int).len() == render::id_column(issues));
        } else if render::id_column(rest) != 2 {
            let i = choose|i: int|
                0 <= i < rest.len() && text::decimal((#[trigger] rest[i]).id as int).len()
                    == render::id_column(rest);
            assert(rest[i] == issues[i]);
        }
    }
}

/// What stands in the title column: an arrow and the number of what the Issue is
/// part of, the title, and how many of its parts are settled. A title too long
/// for the fifty-two columns that leaves is cut, and shows that it is.
pub proof fn a_title_is_cut_to_its_column(one: IssueJsonModel)
    ensures
        ({
            let before = if one.parent_id is Some {
                "↳ #"@ + text::decimal(one.parent_id->0 as int) + " "@
            } else {
                ""@
            };
            let after = if one.sub_issue_ids.len() > 0 {
                " ["@ + text::decimal(one.settled_sub_issues as int) + "/"@ + text::decimal(
                    one.sub_issue_ids.len() as int,
                ) + "]"@
            } else {
                ""@
            };
            let title = issue::shown_title(one.title);
            let room = 52 - before.len() - after.len();
            if title.len() <= room {
                render::title_cell_text(one) == before + title + after
            } else if room > 0 {
                &&& render::title_cell_text(one) == before + title.take(room - 1) + "…"@ + after
                &&& render::title_cell_text(one).len() == 52
            } else if title.len() > 0 {
                render::title_cell_text(one) == before + "…"@ + after
            } else {
                render::title_cell_text(one) == before + after
            }
        }),
{
    reveal_strlit("");
    reveal_strlit("…");
    let before = render::title_prefix(one);
    let after = render::title_suffix(one);
    let title = issue::shown_title(one.title);
    let room = 52 - before.len() - after.len();
    assert(before =~= if one.parent_id is Some {
        "↳ #"@ + text::decimal(one.parent_id->0 as int) + " "@
    } else {
        ""@
    });
    assert(after =~= if one.sub_issue_ids.len() > 0 {
        " ["@ + text::decimal(one.settled_sub_issues as int) + "/"@ + text::decimal(
            one.sub_issue_ids.len() as int,
        ) + "]"@
    } else {
        ""@
    });
    if title.len() > room {
        if room > 0 {
            assert(render::title_cell_text(one) =~= before + title.take(room - 1) + "…"@ + after);
        } else if title.len() > 0 {
            assert(title.take(0) =~= ""@);
            assert(render::title_cell_text(one) =~= before + "…"@ + after);
        } else {
            assert(render::title_cell_text(one) =~= before + after);
        }
    }
}

/// A list of Tags has a line for each, in order: its name and how many Issues
/// carry it.
pub proof fn a_list_has_a_line_for_each_tag(
    tags: Seq<TagJsonModel>,
    one: TagJsonModel,
    width: int,
)
    ensures
        printed(render::tag_listing(Seq::<TagJsonModel>::empty())) == "No tags.\n"@,
        tags.len() > 0 ==> render::tag_listing(tags) == render::tag_rows(
            tags,
            render::name_column(tags) as int,
        ),
        printed(render::tag_rows(Seq::<TagJsonModel>::empty(), width)).len() == 0,
        printed(render::tag_rows(tags.push(one), width)) == printed(render::tag_rows(tags, width))
            + text::padded_right(one.name, width) + "  "@ + text::decimal(one.count as int)
            + "\n"@,
{
    lemma_printed_one(render::plain("No tags.\n"@));
    lemma_printed_none();
    assert(tags.push(one).drop_last() =~= tags);
    let a = seq![render::plain(text::padded_right(one.name, width) + "  "@)];
    let b = seq![render::dim(text::decimal(one.count as int) + "\n"@)];
    lemma_printed_one(a[0]);
    lemma_printed_one(b[0]);
    lemma_printed_joined(render::tag_rows(tags, width), a);
    lemma_printed_joined(render::tag_rows(tags, width) + a, b);
    assert(printed(render::tag_rows(tags.push(one), width)) =~= printed(
        render::tag_rows(tags, width),
    ) + text::padded_right(one.name, width) + "  "@ + text::decimal(one.count as int) + "\n"@);
}

// ---------------------------------------------------------------------------
// Colours
// ---------------------------------------------------------------------------

/// Work that is going on is blue, what is stuck red, what is finished green and
/// what was dropped magenta; Urgent is red and High yellow; nothing else has a
/// colour.
pub proof fn the_colours_tell_status_and_priority(status: Seq<char>, priority: Seq<char>)
    ensures
        render::hue_of_status(status) == Some(Hue::Blue) <==> text::ascii_lowered(status)
            == "doing"@,
        render::hue_of_status(status) == Some(Hue::Red) <==> text::ascii_lowered(status)
            == "blocked"@,
        render::hue_of_status(status) == Some(Hue::Green) <==> text::ascii_lowered(status)
            == "done"@,
        render::hue_of_status(status) == Some(Hue::Magenta) <==> text::ascii_lowered(status)
            == "cancelled"@,
        render::hue_of_status(status) != Some(Hue::Yellow),
        render::hue_of_priority(priority) == Some(Hue::Red) <==> text::ascii_lowered(priority)
            == "urgent"@,
        render::hue_of_priority(priority) == Some(Hue::Yellow) <==> text::ascii_lowered(priority)
            == "high"@,
        render::hue_of_priority(priority) is Some ==> render::hue_of_priority(priority) == Some(
            Hue::Red,
        ) || render::hue_of_priority(priority) == Some(Hue::Yellow),
{
    laws::a_word_means_the_status_it_names(status);
    laws::a_word_means_the_priority_it_names(priority);
}

/// In a line of the list the Status and the Priority have their colours, the
/// Tags are dim and the rest is plain.
pub proof fn a_line_is_coloured_by_status_and_priority(one: IssueJsonModel, width: int)
    ensures
        ({
            let line = render::list_row(one, width);
            &&& line.len() == 6
            &&& line[0].ink == Ink::Plain
            &&& line[1].ink == match render::hue_of_status(one.status) {
                Some(hue) => Ink::Coloured(hue),
                None => Ink::Plain,
            }
            &&& line[2].ink == match render::hue_of_priority(one.priority) {
                Some(hue) => Ink::Coloured(hue),
                None => Ink::Plain,
            }
            &&& line[3].ink == Ink::Plain
            &&& line[4].ink == Ink::Plain
            &&& line[5].ink == Ink::Dim
        }),
{
}

} // verus!
