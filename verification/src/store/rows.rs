//! Issues as the database holds them: one row for the Issue, one more for each
//! of its Tags.

use std::collections::HashMap;
use std::str::FromStr;

use vstd::prelude::*;

use crate::domain::issue;
use crate::domain::issue::{clone_tags, Issue, IssueModel};
use crate::domain::kinds;
use crate::domain::kinds::{IssueId, ParseError, ParseErrorModel, Priority, Size, Status};
use crate::domain::tag;
use crate::domain::tag::Tag;
use crate::text;
use crate::time;
use crate::time::Timestamp;

verus! {

/// One row of the Issue table.
#[derive(Debug, Clone)]
pub struct IssueRow {
    pub id: IssueId,
    pub title: String,
    pub body: String,
    pub status: String,
    pub priority: String,
    pub created_at: String,
    pub updated_at: String,
    pub parent_id: Option<IssueId>,
    pub size: Option<Size>,
}

/// One row of the Issue table, as the contracts speak of it.
#[verifier::ext_equal]
pub struct RowModel {
    pub id: IssueId,
    pub title: Seq<char>,
    pub body: Seq<char>,
    pub status: Seq<char>,
    pub priority: Seq<char>,
    pub created_at: Seq<char>,
    pub updated_at: Seq<char>,
    pub parent_id: Option<IssueId>,
    pub size: Option<Size>,
}

impl View for IssueRow {
    type V = RowModel;

    open spec fn view(&self) -> RowModel {
        RowModel {
            id: self.id,
            title: self.title@,
            body: self.body@,
            status: self.status@,
            priority: self.priority@,
            created_at: self.created_at@,
            updated_at: self.updated_at@,
            parent_id: self.parent_id,
            size: self.size,
        }
    }
}

/// A column that holds no value it should.
#[derive(Debug)]
pub enum BadColumn {
    Status(ParseError),
    Priority(ParseError),
    /// This is no timestamp.
    CreatedAt(String),
    /// This is no timestamp.
    UpdatedAt(String),
    Tag(ParseError),
}

/// A column that holds no value it should, as the contracts speak of it.
#[verifier::ext_equal]
pub enum BadColumnModel {
    Status(ParseErrorModel),
    Priority(ParseErrorModel),
    CreatedAt(Seq<char>),
    UpdatedAt(Seq<char>),
    Tag(ParseErrorModel),
}

impl View for BadColumn {
    type V = BadColumnModel;

    open spec fn view(&self) -> BadColumnModel {
        match *self {
            BadColumn::Status(err) => BadColumnModel::Status(err@),
            BadColumn::Priority(err) => BadColumnModel::Priority(err@),
            BadColumn::CreatedAt(raw) => BadColumnModel::CreatedAt(raw@),
            BadColumn::UpdatedAt(raw) => BadColumnModel::UpdatedAt(raw@),
            BadColumn::Tag(err) => BadColumnModel::Tag(err@),
        }
    }
}

/// An Issue but for its moments, which are as a row has them.
#[verifier::ext_equal]
pub struct ReadModel {
    pub id: IssueId,
    pub title: Seq<char>,
    pub body: Seq<char>,
    pub status: Status,
    pub priority: Priority,
    pub size: Option<Size>,
    pub parent_id: Option<IssueId>,
    pub created_at: (i64, u32),
    pub updated_at: (i64, u32),
}

/// What an Issue without Tags holds.
pub open spec fn read_of(issue: IssueModel) -> ReadModel {
    ReadModel {
        id: issue.id,
        title: issue.title,
        body: issue.body,
        status: issue.status,
        priority: issue.priority,
        size: issue.size,
        parent_id: issue.parent_id,
        created_at: (issue.created_at.spec_secs(), issue.created_at.spec_nanos()),
        updated_at: (issue.updated_at.spec_secs(), issue.updated_at.spec_nanos()),
    }
}

/// What a row holds, or which of its columns is the first that makes no sense.
pub open spec fn read(row: RowModel) -> Result<ReadModel, BadColumnModel> {
    match Status::named(row.status) {
        None => Err(
            BadColumnModel::Status(ParseErrorModel { kind: "status"@, value: row.status }),
        ),
        Some(status) => match Priority::named(row.priority) {
            None => Err(
                BadColumnModel::Priority(
                    ParseErrorModel { kind: "priority"@, value: row.priority },
                ),
            ),
            Some(priority) => match time::rfc3339_moment(row.created_at) {
                None => Err(BadColumnModel::CreatedAt(row.created_at)),
                Some(created_at) => match time::rfc3339_moment(row.updated_at) {
                    None => Err(BadColumnModel::UpdatedAt(row.updated_at)),
                    Some(updated_at) => Ok(
                        ReadModel {
                            id: row.id,
                            title: row.title,
                            body: row.body,
                            status,
                            priority,
                            size: row.size,
                            parent_id: row.parent_id,
                            created_at,
                            updated_at,
                        },
                    ),
                },
            },
        },
    }
}

/// The Issue a row holds, but for its Tags: a single row knows nothing of them.
pub fn read_issue(row: IssueRow) -> (r: Result<Issue, BadColumn>)
    ensures
        match r {
            Ok(issue) => read(row@) == Ok::<ReadModel, BadColumnModel>(read_of(issue@))
                && issue@.tags == Seq::<Seq<char>>::empty(),
            Err(bad) => read(row@) == Err::<ReadModel, BadColumnModel>(bad@),
        },
{
    let status = match Status::from_str(row.status.as_str()) {
        Ok(status) => status,
        Err(err) => {
            return Err(BadColumn::Status(err));
        },
    };
    let priority = match Priority::from_str(row.priority.as_str()) {
        Ok(priority) => priority,
        Err(err) => {
            return Err(BadColumn::Priority(err));
        },
    };
    let created_at = match Timestamp::parse(row.created_at.as_str()) {
        Some(at) => at,
        None => {
            return Err(BadColumn::CreatedAt(row.created_at));
        },
    };
    let updated_at = match Timestamp::parse(row.updated_at.as_str()) {
        Some(at) => at,
        None => {
            return Err(BadColumn::UpdatedAt(row.updated_at));
        },
    };
    let tags: Vec<Tag> = Vec::new();
    assert(tag::names(tags@) =~= Seq::<Seq<char>>::empty());
    Ok(
        Issue {
            id: row.id,
            title: row.title,
            body: row.body,
            status,
            priority,
            size: row.size,
            tags,
            parent_id: row.parent_id,
            created_at,
            updated_at,
        },
    )
}

/// The row of an Issue.
pub open spec fn written(issue: IssueModel) -> RowModel {
    RowModel {
        id: issue.id,
        title: issue.title,
        body: issue.body,
        status: issue.status.name(),
        priority: issue.priority.name(),
        created_at: time::rfc3339_text(
            issue.created_at.spec_secs(),
            issue.created_at.spec_nanos(),
        ),
        updated_at: time::rfc3339_text(
            issue.updated_at.spec_secs(),
            issue.updated_at.spec_nanos(),
        ),
        parent_id: issue.parent_id,
        size: issue.size,
    }
}

/// A moment cut to the microsecond, which is what a row keeps of it.
pub open spec fn kept(at: Timestamp) -> (i64, u32) {
    (at.spec_secs(), (at.spec_nanos() - at.spec_nanos() % 1000) as u32)
}

/// The row of an Issue. In the years that have four digits, what is written
/// reads back as what it was written from, its moments cut to the microsecond.
pub fn write_issue(issue: &Issue) -> (r: IssueRow)
    ensures
        r@ == written(issue@),
        time::in_four_digit_years(issue@.created_at.spec_secs() as int)
            && time::in_four_digit_years(issue@.updated_at.spec_secs() as int) ==> read(r@) == Ok::<
            ReadModel,
            BadColumnModel,
        >(
            ReadModel {
                created_at: kept(issue@.created_at),
                updated_at: kept(issue@.updated_at),
                ..read_of(issue@)
            },
        ),
{
    let r = IssueRow {
        id: issue.id,
        title: issue.title.clone(),
        body: issue.body.clone(),
        status: issue.status.to_string(),
        priority: issue.priority.to_string(),
        created_at: issue.created_at.to_text(),
        updated_at: issue.updated_at.to_text(),
        parent_id: issue.parent_id,
        size: issue.size,
    };
    proof {
        kinds::a_status_reads_back(issue.status);
        kinds::a_priority_reads_back(issue.priority);
    }
    r
}

// ---------------------------------------------------------------------------
// Tags
// ---------------------------------------------------------------------------

/// The first row whose name is not usable as a Tag.
pub open spec fn first_unusable(rows: Seq<(IssueId, Seq<char>)>) -> Option<Seq<char>>
    decreases rows.len(),
{
    if rows.len() == 0 {
        None
    } else {
        match first_unusable(rows.drop_last()) {
            Some(name) => Some(name),
            None => if tag::usable_name(text::trimmed(rows.last().1)) {
                None
            } else {
                Some(rows.last().1)
            },
        }
    }
}

/// The Tags that some rows give an Issue, in the order of the rows.
pub open spec fn tags_for(rows: Seq<(IssueId, Seq<char>)>, id: IssueId) -> Seq<Seq<char>>
    decreases rows.len(),
{
    if rows.len() == 0 {
        Seq::<Seq<char>>::empty()
    } else if rows.last().0 == id {
        tags_for(rows.drop_last(), id).push(text::trimmed(rows.last().1))
    } else {
        tags_for(rows.drop_last(), id)
    }
}

/// The models of some Tag rows.
pub open spec fn tag_rows(rows: Seq<(IssueId, String)>) -> Seq<(IssueId, Seq<char>)> {
    rows.map_values(|r: (IssueId, String)| (r.0, r.1@))
}

/// Every Issue's Tags, keyed by Issue.
struct TagIndex {
    by_issue: HashMap<IssueId, Vec<Tag>>,
}

impl TagIndex {
    spec fn names_of(self, id: IssueId) -> Seq<Seq<char>> {
        if self.by_issue@.contains_key(id) {
            tag::names(self.by_issue@[id]@)
        } else {
            Seq::<Seq<char>>::empty()
        }
    }

    /// Reads some rows in one pass, so loading stays two statements however
    /// many Issues there are.
    fn of(rows: &Vec<(IssueId, String)>) -> (r: Result<TagIndex, BadColumn>)
        ensures
            match r {
                Ok(index) => first_unusable(tag_rows(rows@)) is None && forall|id: IssueId|
                    #[trigger] index.names_of(id) == tags_for(tag_rows(rows@), id),
                Err(bad) => first_unusable(tag_rows(rows@)) matches Some(name) && bad@
                    == BadColumnModel::Tag(ParseErrorModel { kind: "tag"@, value: name }),
            },
    {
        broadcast use vstd::std_specs::hash::group_hash_axioms;

        let ghost all = tag_rows(rows@);
        let mut index = TagIndex { by_issue: HashMap::new() };
        let mut i: usize = 0;
        while i < rows.len()
            invariant
                i <= rows.len(),
                all == tag_rows(rows@),
                first_unusable(all.take(i as int)) is None,
                forall|id: IssueId| #[trigger]
                    index.names_of(id) == tags_for(all.take(i as int), id),
            decreases rows.len() - i,
        {
            let ghost before = index;
            proof {
                assert(all.take(i + 1).drop_last() =~= all.take(i as int));
                assert(all.take(i + 1).last() == (rows@[i as int].0, rows@[i as int].1@));
            }
            let id: IssueId = rows[i].0;
            let tag = match Tag::from_str(rows[i].1.as_str()) {
                Ok(tag) => tag,
                Err(err) => {
                    proof {
                        lemma_first_unusable(all, i + 1);
                    }
                    return Err(BadColumn::Tag(err));
                },
            };
            let mut list: Vec<Tag> = match index.by_issue.remove(&id) {
                Some(list) => list,
                None => Vec::new(),
            };
            let ghost had = tag::names(list@);
            let ghost name = tag@;
            assert(had =~= before.names_of(id));
            list.push(tag);
            assert(tag::names(list@) =~= had.push(name));
            index.by_issue.insert(id, list);
            assert forall|other: IssueId| #[trigger] index.names_of(other) == if other == id {
                had.push(name)
            } else {
                before.names_of(other)
            } by {}
            assert forall|other: IssueId| #[trigger] index.names_of(other) == tags_for(
                all.take(i + 1),
                other,
            ) by {
                assert(before.names_of(other) == tags_for(all.take(i as int), other));
            }
            i += 1;
        }
        assert(all.take(i as int) =~= all);
        Ok(index)
    }

    fn tags(&self, id: IssueId) -> (r: Vec<Tag>)
        ensures
            tag::names(r@) == self.names_of(id),
    {
        broadcast use vstd::std_specs::hash::group_hash_axioms;

        match self.by_issue.get(&id) {
            Some(list) => clone_tags(list),
            None => {
                let none: Vec<Tag> = Vec::new();
                assert(tag::names(none@) =~= Seq::<Seq<char>>::empty());
                none
            },
        }
    }
}

proof fn lemma_first_unusable(rows: Seq<(IssueId, Seq<char>)>, upto: int)
    requires
        0 <= upto <= rows.len(),
        first_unusable(rows.take(upto)) is Some,
    ensures
        first_unusable(rows) == first_unusable(rows.take(upto)),
    decreases rows.len() - upto,
{
    if upto == rows.len() {
        assert(rows.take(upto) =~= rows);
    } else {
        assert(rows.take(upto + 1).drop_last() =~= rows.take(upto));
        lemma_first_unusable(rows, upto + 1);
    }
}

/// Issues with the Tags that some rows give them.
pub open spec fn tagged(issues: Seq<IssueModel>, rows: Seq<(IssueId, Seq<char>)>) -> Seq<
    IssueModel,
> {
    issues.map_values(|i: IssueModel| IssueModel { tags: tags_for(rows, i.id), ..i })
}

/// Gives Issues the Tags that the rows of the Tag table hold for them.
pub fn with_tags(issues: Vec<Issue>, rows: &Vec<(IssueId, String)>) -> (r: Result<
    Vec<Issue>,
    BadColumn,
>)
    ensures
        match r {
            Ok(list) => first_unusable(tag_rows(rows@)) is None && issue::models(list@) == tagged(
                issue::models(issues@),
                tag_rows(rows@),
            ),
            Err(bad) => first_unusable(tag_rows(rows@)) matches Some(name) && bad@
                == BadColumnModel::Tag(ParseErrorModel { kind: "tag"@, value: name }),
        },
{
    let index = match TagIndex::of(rows) {
        Ok(index) => index,
        Err(bad) => {
            return Err(bad);
        },
    };
    let ghost given = issue::models(issues@);
    let ghost want = tagged(given, tag_rows(rows@));
    let mut out: Vec<Issue> = Vec::new();
    let mut i: usize = 0;
    while i < issues.len()
        invariant
            i <= issues.len(),
            given == issue::models(issues@),
            want == tagged(given, tag_rows(rows@)),
            forall|id: IssueId| #[trigger] index.names_of(id) == tags_for(tag_rows(rows@), id),
            out@.len() == i,
            forall|k: int| 0 <= k < i ==> (#[trigger] out@[k])@ == want[k],
        decreases issues.len() - i,
    {
        assert(given[i as int] == issues@[i as int]@);
        let mut one = issues[i].clone();
        one.tags = index.tags(issues[i].id);
        assert(one@ =~= want[i as int]);
        out.push(one);
        i += 1;
    }
    assert(issue::models(out@) =~= want);
    Ok(out)
}

// ---------------------------------------------------------------------------
// Laws
// ---------------------------------------------------------------------------

/// The Tag rows of an Issue: one for each of its Tags, in order.
pub open spec fn rows_of(issue: IssueModel) -> Seq<(IssueId, Seq<char>)> {
    issue.tags.map_values(|name: Seq<char>| (issue.id, name))
}

/// Law: an Issue's Tags come back from the rows they were written as.
pub proof fn tags_read_back(issue: IssueModel)
    requires
        forall|i: int|
            0 <= i < issue.tags.len() ==> text::trimmed(#[trigger] issue.tags[i]) == issue.tags[i]
                && tag::usable_name(issue.tags[i]),
    ensures
        first_unusable(rows_of(issue)) is None,
        tags_for(rows_of(issue), issue.id) == issue.tags,
    decreases issue.tags.len(),
{
    let rows = rows_of(issue);
    if issue.tags.len() > 0 {
        let rest = IssueModel { tags: issue.tags.drop_last(), ..issue };
        assert forall|i: int| 0 <= i < rest.tags.len() implies text::trimmed(
            #[trigger] rest.tags[i],
        ) == rest.tags[i] && tag::usable_name(rest.tags[i]) by {
            assert(rest.tags[i] == issue.tags[i]);
        }
        tags_read_back(rest);
        assert(rows.drop_last() =~= rows_of(rest));
        let last = issue.tags[issue.tags.len() - 1];
        assert(rows.last() == (issue.id, last));
        assert(text::trimmed(last) == last);
        assert(issue.tags =~= issue.tags.drop_last().push(last));
    } else {
        assert(tags_for(rows, issue.id) =~= issue.tags);
    }
}

/// Law: a row holds an Issue column by column, the moment it was created and the
/// moment it was last updated each in its own.
pub proof fn a_row_holds_the_issue(issue: IssueModel)
    ensures
        ({
            let row = written(issue);
            &&& row.id == issue.id
            &&& row.title == issue.title
            &&& row.body == issue.body
            &&& Status::named(row.status) == Some(issue.status)
            &&& Priority::named(row.priority) == Some(issue.priority)
            &&& row.size == issue.size
            &&& row.parent_id == issue.parent_id
            &&& row.created_at == time::rfc3339_text(
                issue.created_at.spec_secs(),
                issue.created_at.spec_nanos(),
            )
            &&& row.updated_at == time::rfc3339_text(
                issue.updated_at.spec_secs(),
                issue.updated_at.spec_nanos(),
            )
        }),
{
    crate::domain::kinds::a_status_reads_back(issue.status);
    crate::domain::kinds::a_priority_reads_back(issue.priority);
}

/// Law: a row is read column by column, and it is not read exactly where one of
/// four columns means nothing. The first of them is told.
pub proof fn a_row_is_read_column_by_column(row: RowModel)
    ensures
        read(row) is Ok <==> Status::named(row.status) is Some && Priority::named(row.priority)
            is Some && time::rfc3339_moment(row.created_at) is Some && time::rfc3339_moment(
            row.updated_at,
        ) is Some,
        read(row) matches Ok(issue) ==> {
            &&& issue.id == row.id
            &&& issue.title == row.title
            &&& issue.body == row.body
            &&& Some(issue.status) == Status::named(row.status)
            &&& Some(issue.priority) == Priority::named(row.priority)
            &&& issue.size == row.size
            &&& issue.parent_id == row.parent_id
            &&& Some(issue.created_at) == time::rfc3339_moment(row.created_at)
            &&& Some(issue.updated_at) == time::rfc3339_moment(row.updated_at)
        },
        read(row) matches Err(bad) ==> match bad {
            BadColumnModel::Status(err) => Status::named(row.status) is None && err.value
                == row.status && err.kind == "status"@,
            BadColumnModel::Priority(err) => Priority::named(row.priority) is None && err.value
                == row.priority && err.kind == "priority"@,
            BadColumnModel::CreatedAt(raw) => time::rfc3339_moment(row.created_at) is None && raw
                == row.created_at,
            BadColumnModel::UpdatedAt(raw) => time::rfc3339_moment(row.updated_at) is None && raw
                == row.updated_at,
            BadColumnModel::Tag(_) => false,
        },
{
}

/// Law: what is read of an Issue is what it holds.
pub proof fn what_is_read_is_the_issue(issue: IssueModel)
    ensures
        ({
            let seen = read_of(issue);
            &&& seen.id == issue.id
            &&& seen.title == issue.title
            &&& seen.body == issue.body
            &&& seen.status == issue.status
            &&& seen.priority == issue.priority
            &&& seen.size == issue.size
            &&& seen.parent_id == issue.parent_id
            &&& seen.created_at == (issue.created_at.spec_secs(), issue.created_at.spec_nanos())
            &&& seen.updated_at == (issue.updated_at.spec_secs(), issue.updated_at.spec_nanos())
        }),
{
}

/// Law: Tag rows go to the Issue they name. One more row gives that Issue one
/// more Tag, without the white space round it, and no other Issue anything.
pub proof fn a_tag_row_goes_to_its_issue(
    rows: Seq<(IssueId, Seq<char>)>,
    holder: IssueId,
    name: Seq<char>,
    other: IssueId,
)
    ensures
        tags_for(rows.push((holder, name)), holder) == tags_for(rows, holder).push(
            text::trimmed(name),
        ),
        other != holder ==> tags_for(rows.push((holder, name)), other) == tags_for(rows, other),
        tags_for(Seq::empty(), holder).len() == 0,
{
    assert(rows.push((holder, name)).drop_last() =~= rows);
}

/// Law: Tags are refused exactly where some row names what could not be one, and
/// the first of these is told.
pub proof fn a_bad_tag_row_is_told(rows: Seq<(IssueId, Seq<char>)>)
    ensures
        match first_unusable(rows) {
            None => forall|i: int|
                0 <= i < rows.len() ==> tag::usable_name(text::trimmed((#[trigger] rows[i]).1)),
            Some(name) => exists|i: int|
                0 <= i < rows.len() && (#[trigger] rows[i]).1 == name && !tag::usable_name(
                    text::trimmed(name),
                ) && forall|j: int|
                    0 <= j < i ==> tag::usable_name(text::trimmed((#[trigger] rows[j]).1)),
        },
    decreases rows.len(),
{
    if rows.len() > 0 {
        let rest = rows.drop_last();
        a_bad_tag_row_is_told(rest);
        assert forall|i: int| 0 <= i < rest.len() implies rest[i] == #[trigger] rows[i] by {}
        match first_unusable(rest) {
            Some(name) => {
                let i = choose|i: int|
                    0 <= i < rest.len() && (#[trigger] rest[i]).1 == name && !tag::usable_name(
                        text::trimmed(name),
                    ) && forall|j: int|
                        0 <= j < i ==> tag::usable_name(text::trimmed((#[trigger] rest[j]).1));
                assert(rows[i].1 == name);
                assert forall|j: int| 0 <= j < i implies tag::usable_name(
                    text::trimmed((#[trigger] rows[j]).1),
                ) by {
                    assert(rest[j] == rows[j]);
                }
            },
            None => {
                assert(rows[rows.len() - 1] == rows.last());
            },
        }
    }
}

/// Law: giving Issues their Tags changes nothing else of them.
pub proof fn tagging_changes_the_tags_alone(
    issues: Seq<IssueModel>,
    rows: Seq<(IssueId, Seq<char>)>,
    i: int,
)
    requires
        0 <= i < issues.len(),
    ensures
        tagged(issues, rows).len() == issues.len(),
        tagged(issues, rows)[i].tags == tags_for(rows, issues[i].id),
        tagged(issues, rows)[i].id == issues[i].id,
        tagged(issues, rows)[i].title == issues[i].title,
        tagged(issues, rows)[i].body == issues[i].body,
        tagged(issues, rows)[i].status == issues[i].status,
        tagged(issues, rows)[i].priority == issues[i].priority,
        tagged(issues, rows)[i].size == issues[i].size,
        tagged(issues, rows)[i].parent_id == issues[i].parent_id,
        tagged(issues, rows)[i].created_at == issues[i].created_at,
        tagged(issues, rows)[i].updated_at == issues[i].updated_at,
{
}

/// Law: a moment is kept to the microsecond.
pub proof fn a_moment_is_kept_to_the_microsecond(at: Timestamp)
    ensures
        kept(at).0 == at.spec_secs(),
        kept(at).1 <= at.spec_nanos() < kept(at).1 + 1000,
        kept(at).1 as int % 1000 == 0,
{
}

} // verus!
