//! What the Issues allow, and what becomes of them: the rules of the
//! projection, stated over models.

use vstd::prelude::*;

use crate::domain::issue;
use crate::domain::issue::IssueModel;
use crate::domain::kinds::{IssueId, Priority, Size, Status};
use crate::domain::tag;
use crate::projection::{PatchModel, Refused, WriteErrorModel};
use crate::time::Timestamp;

verus! {

// ---------------------------------------------------------------------------
// Reading
// ---------------------------------------------------------------------------

/// The place of the first Issue with this id.
pub open spec fn place_of(issues: Seq<IssueModel>, id: IssueId) -> Option<int>
    decreases issues.len(),
{
    if issues.len() == 0 {
        None
    } else {
        match place_of(issues.drop_last(), id) {
            Some(place) => Some(place),
            None => if issues.last().id == id {
                Some(issues.len() - 1)
            } else {
                None
            },
        }
    }
}

/// The first Issue with this id.
pub open spec fn found(issues: Seq<IssueModel>, id: IssueId) -> Option<IssueModel> {
    match place_of(issues, id) {
        Some(place) => Some(issues[place]),
        None => None,
    }
}

/// The Issues that are part of this one, in the order they stand in.
pub open spec fn parts(issues: Seq<IssueModel>, id: IssueId) -> Seq<IssueModel> {
    issues.filter(|i: IssueModel| i.parent_id == Some(id))
}

/// Every name some Issue carries, as often as it is carried.
pub open spec fn all_names(issues: Seq<IssueModel>) -> Seq<Seq<char>>
    decreases issues.len(),
{
    if issues.len() == 0 {
        Seq::<Seq<char>>::empty()
    } else {
        all_names(issues.drop_last()) + issues.last().tags
    }
}

/// Every Tag some Issue carries, once, in the spelling that comes first.
pub open spec fn vocabulary(issues: Seq<IssueModel>) -> Seq<Seq<char>> {
    tag::collected(all_names(issues))
}

/// The Issues that carry a Tag.
pub open spec fn with_tag(issues: Seq<IssueModel>, name: Seq<char>) -> Seq<IssueModel> {
    issues.filter(|i: IssueModel| tag::has_tag(i.tags, name))
}

/// Those of some Issues that are settled.
pub open spec fn settled_of(issues: Seq<IssueModel>) -> Seq<IssueModel> {
    issues.filter(|i: IssueModel| i.status.settled())
}

/// Those of some Issues that are not settled.
pub open spec fn outstanding_of(issues: Seq<IssueModel>) -> Seq<IssueModel> {
    issues.filter(|i: IssueModel| !i.status.settled())
}

/// Settled over total for some parts, or nothing where there are none.
pub open spec fn progress(parts: Seq<IssueModel>) -> Option<(nat, nat)> {
    if parts.len() == 0 {
        None
    } else {
        Some((settled_of(parts).len(), parts.len()))
    }
}

// ---------------------------------------------------------------------------
// Rules
// ---------------------------------------------------------------------------

/// Why an Issue may not take on a part that is or is not settled, if it may
/// not.
pub open spec fn why_not_hold(
    issues: Seq<IssueModel>,
    parent: IssueId,
    child_is_settled: bool,
) -> Option<WriteErrorModel> {
    match found(issues, parent) {
        None => Some(WriteErrorModel::NotFound(parent)),
        Some(target) => if target.parent_id is Some {
            Some(WriteErrorModel::Refused(Refused::ParentIsSubIssue(parent)))
        } else if target.status == Status::Done && !child_is_settled {
            Some(WriteErrorModel::Refused(Refused::ParentAlreadyDone(parent)))
        } else {
            None
        },
    }
}

/// Why one Issue may not be attached under another, if it may not.
pub open spec fn why_not_attach(
    issues: Seq<IssueModel>,
    child: IssueId,
    parent: IssueId,
) -> Option<WriteErrorModel> {
    match found(issues, child) {
        None => Some(WriteErrorModel::NotFound(child)),
        Some(issue) => if parent == child {
            Some(WriteErrorModel::Refused(Refused::SelfParent))
        } else if why_not_hold(issues, parent, issue.status.settled()) is Some {
            why_not_hold(issues, parent, issue.status.settled())
        } else if parts(issues, child).len() > 0 {
            Some(WriteErrorModel::Refused(Refused::ChildHasSubIssues(child)))
        } else {
            None
        },
    }
}

/// Why an Issue may not take on a Status, if it may not.
pub open spec fn why_not_become(issues: Seq<IssueModel>, id: IssueId, next: Status) -> Option<
    Refused,
> {
    if next == Status::Done && outstanding_of(parts(issues, id)).len() > 0 {
        Some(Refused::SubIssuesOutstanding(outstanding_of(parts(issues, id)).len() as usize))
    } else if !next.settled() {
        match found(issues, id) {
            Some(issue) => match issue.parent_id {
                Some(parent) => match found(issues, parent) {
                    Some(holder) => if holder.status == Status::Done {
                        Some(Refused::ParentIsDone(parent))
                    } else {
                        None
                    },
                    None => None,
                },
                None => None,
            },
            None => None,
        }
    } else {
        None
    }
}

// ---------------------------------------------------------------------------
// Plans
// ---------------------------------------------------------------------------

/// An Issue but for what the database assigns: its id and its timestamps.
#[verifier::ext_equal]
pub struct Content {
    pub title: Seq<char>,
    pub body: Seq<char>,
    pub status: Status,
    pub priority: Priority,
    pub size: Option<Size>,
    pub tags: Seq<Seq<char>>,
    pub parent_id: Option<IssueId>,
}

/// What an Issue holds, but for what the database assigns.
pub open spec fn content_of(issue: IssueModel) -> Content {
    Content {
        title: issue.title,
        body: issue.body,
        status: issue.status,
        priority: issue.priority,
        size: issue.size,
        tags: issue.tags,
        parent_id: issue.parent_id,
    }
}

/// The Issue that the database makes of some content.
pub open spec fn stamped(content: Content, id: IssueId, at: Timestamp) -> IssueModel {
    IssueModel {
        id,
        title: content.title,
        body: content.body,
        status: content.status,
        priority: content.priority,
        size: content.size,
        tags: content.tags,
        parent_id: content.parent_id,
        created_at: at,
        updated_at: at,
    }
}

/// An Issue with other content.
pub open spec fn with_content(issue: IssueModel, content: Content) -> IssueModel {
    IssueModel {
        title: content.title,
        body: content.body,
        status: content.status,
        priority: content.priority,
        size: content.size,
        tags: content.tags,
        parent_id: content.parent_id,
        ..issue
    }
}

/// What a new Issue holds: a title, and defaults everywhere else.
pub open spec fn blank(title: Seq<char>) -> Content {
    Content {
        title,
        body: Seq::<char>::empty(),
        status: Status::Todo,
        priority: Priority::Unset,
        size: None,
        tags: Seq::<Seq<char>>::empty(),
        parent_id: None,
    }
}

/// Content with the fields a patch names, and its others as they were. Tags
/// are folded against the spellings in use.
pub open spec fn patched(content: Content, patch: PatchModel, in_use: Seq<Seq<char>>) -> Content {
    Content {
        title: match patch.title {
            Some(title) => title,
            None => content.title,
        },
        body: match patch.body {
            Some(body) => body,
            None => content.body,
        },
        status: match patch.status {
            Some(status) => status,
            None => content.status,
        },
        priority: match patch.priority {
            Some(priority) => priority,
            None => content.priority,
        },
        tags: match patch.tags {
            Some(tags) => tag::normalised(tags, in_use),
            None => content.tags,
        },
        size: match patch.size {
            Some(size) => size,
            None => content.size,
        },
        parent_id: content.parent_id,
    }
}

/// What is filed for a title, a patch and a parent, or why nothing is.
pub open spec fn to_create(
    issues: Seq<IssueModel>,
    title: Seq<char>,
    rest: PatchModel,
    parent: Option<IssueId>,
) -> Result<Content, WriteErrorModel> {
    let draft = patched(blank(title), rest, vocabulary(issues));
    match parent {
        None => Ok(draft),
        Some(id) => match why_not_hold(issues, id, draft.status.settled()) {
            Some(reason) => Err(reason),
            None => Ok(Content { parent_id: Some(id), ..draft }),
        },
    }
}

/// What a change comes to: a version to be written, or the version that stands
/// already.
#[verifier::ext_equal]
pub enum ChangeModel {
    Write(IssueModel),
    Unchanged(IssueModel),
}

/// What making `next` the version of its Issue comes to.
pub open spec fn to_commit(issues: Seq<IssueModel>, next: IssueModel) -> Result<
    ChangeModel,
    WriteErrorModel,
> {
    match found(issues, next.id) {
        None => Err(WriteErrorModel::NotFound(next.id)),
        Some(current) => if current.same_as(next) {
            Ok(ChangeModel::Unchanged(next))
        } else {
            Ok(ChangeModel::Write(next))
        },
    }
}

/// What patching an Issue comes to.
pub open spec fn to_patch(issues: Seq<IssueModel>, id: IssueId, patch: PatchModel) -> Result<
    ChangeModel,
    WriteErrorModel,
> {
    match found(issues, id) {
        None => Err(WriteErrorModel::NotFound(id)),
        Some(current) => {
            let refusal = match patch.status {
                Some(status) => why_not_become(issues, id, status),
                None => None,
            };
            match refusal {
                Some(reason) => Err(WriteErrorModel::Refused(reason)),
                None => to_commit(
                    issues,
                    with_content(current, patched(content_of(current), patch, vocabulary(issues))),
                ),
            }
        },
    }
}

/// What filing an Issue under another, or under none, comes to.
pub open spec fn to_set_parent(
    issues: Seq<IssueModel>,
    child: IssueId,
    parent: Option<IssueId>,
) -> Result<ChangeModel, WriteErrorModel> {
    match found(issues, child) {
        None => Err(WriteErrorModel::NotFound(child)),
        Some(current) => {
            let refusal = match parent {
                Some(id) => why_not_attach(issues, child, id),
                None => None,
            };
            match refusal {
                Some(reason) => Err(reason),
                None => to_commit(issues, IssueModel { parent_id: parent, ..current }),
            }
        },
    }
}

/// The patch that only replaces the Tags.
pub open spec fn retagged(tags: Seq<Seq<char>>) -> PatchModel {
    PatchModel {
        title: None,
        body: None,
        status: None,
        priority: None,
        tags: Some(tags),
        size: None,
    }
}

/// What adding one Tag to an Issue comes to.
pub open spec fn to_add_tag(issues: Seq<IssueModel>, id: IssueId, name: Seq<char>) -> Result<
    ChangeModel,
    WriteErrorModel,
> {
    match found(issues, id) {
        None => Err(WriteErrorModel::NotFound(id)),
        Some(issue) => to_patch(
            issues,
            id,
            retagged(
                if tag::has_tag(issue.tags, name) {
                    issue.tags
                } else {
                    issue.tags.push(name)
                },
            ),
        ),
    }
}

/// What taking one Tag off an Issue comes to.
pub open spec fn to_remove_tag(issues: Seq<IssueModel>, id: IssueId, name: Seq<char>) -> Result<
    ChangeModel,
    WriteErrorModel,
> {
    match found(issues, id) {
        None => Err(WriteErrorModel::NotFound(id)),
        Some(issue) => to_patch(
            issues,
            id,
            retagged(issue.tags.filter(|x: Seq<char>| tag::key_of(x) != tag::key_of(name))),
        ),
    }
}

/// Why an Issue may not be erased, if it may not.
pub open spec fn why_not_delete(issues: Seq<IssueModel>, id: IssueId) -> Option<WriteErrorModel> {
    if found(issues, id) is None {
        Some(WriteErrorModel::NotFound(id))
    } else {
        None
    }
}

// ---------------------------------------------------------------------------
// Outcomes
// ---------------------------------------------------------------------------

/// The Issues once one more has been stored.
pub open spec fn after_insert(issues: Seq<IssueModel>, issue: IssueModel) -> Seq<IssueModel> {
    issue::displayed(issues.push(issue))
}

/// The Issues once a new version of one has been stored.
pub open spec fn after_update(issues: Seq<IssueModel>, next: IssueModel) -> Seq<IssueModel> {
    match place_of(issues, next.id) {
        Some(place) => issue::displayed(issues.update(place, next)),
        None => issues,
    }
}

/// An Issue, no longer part of the one with this id.
pub open spec fn orphaned(issue: IssueModel, id: IssueId) -> IssueModel {
    if issue.parent_id == Some(id) {
        IssueModel { parent_id: None, ..issue }
    } else {
        issue
    }
}

/// The Issues once one has been erased: its parts survive as ordinary Issues.
pub open spec fn after_delete(issues: Seq<IssueModel>, id: IssueId) -> Seq<IssueModel> {
    issues.filter(|i: IssueModel| i.id != id).map_values(|i: IssueModel| orphaned(i, id))
}

} // verus!
