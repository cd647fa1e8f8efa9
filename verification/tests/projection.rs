//! Every rule about changing the Issues, with a database behind them.

use issue_tracker::domain::{
    sort_for_display, Issue, IssueId, Priority, Status, Tag, TagSet,
};
use issue_tracker::projection::{
    Change, IssuePatch, Projection, Refused, Stamp, SubIssues, WriteError, Written,
};
use issue_tracker::store::rows::{read_issue, with_tags, write_issue, IssueRow};
use issue_tracker::time::Timestamp;

/// The rows a database would hold, written and read the way it would.
#[derive(Default)]
struct Disk {
    rows: Vec<IssueRow>,
    tags: Vec<(IssueId, String)>,
    clock: i64,
    next: IssueId,
    /// Refuses every write.
    read_only: bool,
    /// Refuses every Tag.
    no_tags: bool,
}

impl Disk {
    fn tick(&mut self) -> Timestamp {
        self.clock += 1;
        Timestamp::from_parts(1_780_000_000 + self.clock, 0).expect("a moment")
    }

    fn check(&self, issue: &Issue) -> Result<(), String> {
        if self.read_only {
            return Err("attempt to write a readonly database".to_string());
        }
        if self.no_tags && !issue.tags.is_empty() {
            return Err("sabotaged".to_string());
        }
        Ok(())
    }

    fn tag(&mut self, issue: &Issue) {
        self.tags.retain(|(id, _)| *id != issue.id);
        for tag in &issue.tags {
            self.tags.push((issue.id, tag.as_str().to_string()));
        }
    }

    fn insert(&mut self, draft: &Issue) -> Result<Stamp, String> {
        self.check(draft)?;
        self.next += 1;
        let at = self.tick();
        let mut issue = draft.clone();
        issue.id = self.next;
        issue.created_at = at;
        issue.updated_at = at;
        self.rows.push(write_issue(&issue));
        self.tag(&issue);
        Ok(Stamp { id: issue.id, at })
    }

    fn update(&mut self, next: &Issue) -> Result<Timestamp, String> {
        self.check(next)?;
        let at = self.tick();
        let mut issue = next.clone();
        issue.updated_at = at;
        for row in &mut self.rows {
            if row.id == issue.id {
                *row = write_issue(&issue);
            }
        }
        self.tag(&issue);
        Ok(at)
    }

    fn delete(&mut self, id: IssueId) -> Result<(), String> {
        if self.read_only {
            return Err("attempt to write a readonly database".to_string());
        }
        self.rows.retain(|row| row.id != id);
        self.tags.retain(|(owner, _)| *owner != id);
        for row in &mut self.rows {
            if row.parent_id == Some(id) {
                row.parent_id = None;
            }
        }
        Ok(())
    }

    fn load_all(&self) -> Vec<Issue> {
        let issues = self
            .rows
            .iter()
            .map(|row| read_issue(row.clone()).expect("a readable row"))
            .collect();
        with_tags(issues, &self.tags).expect("usable tags")
    }
}

/// The projection with a database behind it.
struct Desk {
    projection: Projection,
    disk: Disk,
}

impl Desk {
    fn commit(&mut self, change: Written<Change>) -> Written<Issue> {
        match change? {
            Change::Unchanged(issue) => Ok(issue),
            Change::Write(next) => {
                let stored = self.disk.update(&next);
                self.projection.updated(next, stored)
            }
        }
    }

    fn create(
        &mut self,
        title: &str,
        rest: IssuePatch,
        parent: Option<IssueId>,
    ) -> Written<Issue> {
        let draft = self.projection.create(title, rest, parent)?;
        let stored = self.disk.insert(&draft);
        self.projection.created(draft, stored)
    }

    fn patch(&mut self, id: IssueId, patch: IssuePatch) -> Written<Issue> {
        let change = self.projection.patch(id, patch);
        self.commit(change)
    }

    fn set_parent(&mut self, child: IssueId, parent: Option<IssueId>) -> Written<Issue> {
        let change = self.projection.set_parent(child, parent);
        self.commit(change)
    }

    fn add_tag(&mut self, id: IssueId, tag: Tag) -> Written<Issue> {
        let change = self.projection.add_tag(id, tag);
        self.commit(change)
    }

    fn remove_tag(&mut self, id: IssueId, tag: &Tag) -> Written<Issue> {
        let change = self.projection.remove_tag(id, tag);
        self.commit(change)
    }

    fn delete(&mut self, id: IssueId) -> Written<()> {
        self.projection.delete(id)?;
        let stored = self.disk.delete(id);
        self.projection.deleted(id, stored)
    }

    fn tags_in_use(&self) -> TagSet {
        self.projection.tags_in_use()
    }

    fn count_with_tag(&self, tag: &Tag) -> usize {
        self.projection.count_with_tag(tag)
    }

    fn sub_issues(&self, id: IssueId) -> Vec<&Issue> {
        self.projection.sub_issues(id)
    }

    fn sub_issue_index(&self) -> SubIssues<'_> {
        self.projection.sub_issue_index()
    }

    fn settled_progress(&self, id: IssueId) -> Option<(usize, usize)> {
        self.projection.settled_progress(id)
    }

    fn can_be_done(&self, id: IssueId) -> bool {
        self.projection.can_be_done(id)
    }

    fn may_attach(&self, child: IssueId, parent: IssueId) -> Written<()> {
        self.projection.may_attach(child, parent)
    }

    fn eligible_sub_issues(&self, parent: IssueId) -> Vec<&Issue> {
        self.projection.eligible_sub_issues(parent)
    }

    fn eligible_parents(&self, child: IssueId) -> Vec<&Issue> {
        self.projection.eligible_parents(child)
    }

    fn issues(&self) -> &[Issue] {
        self.projection.issues()
    }

    fn get(&self, id: IssueId) -> Option<&Issue> {
        self.projection.get(id)
    }
}

fn projection() -> Desk {
    Desk {
        projection: Projection::load(Vec::new()),
        disk: Disk::default(),
    }
}

fn tag(name: &str) -> Tag {
    name.parse().expect("valid tag")
}

fn filed(p: &mut Desk, title: &str) -> IssueId {
    p.create(title, IssuePatch::default(), None).unwrap().id
}

/// Every eligibility answer must match the refusal that would follow.
///
/// This is the property the two forms of the rule exist to share: a
/// picker that offers something the writer would refuse is a control that
/// fails on click, and one that hides something the writer would accept
/// is work you cannot do.
fn offers_agree_with_refusals(p: &Desk) {
    let ids: Vec<IssueId> = p.issues().iter().map(|issue| issue.id).collect();
    for &parent in &ids {
        let offered: Vec<IssueId> = p
            .eligible_sub_issues(parent)
            .iter()
            .map(|issue| issue.id)
            .collect();
        for &child in &ids {
            let allowed = p.may_attach(child, parent).is_ok();
            // Something already under this parent is withheld from the
            // list without being refused: attaching it would be a move to
            // where it already is.
            let already_there = p.get(child).and_then(|issue| issue.parent_id) == Some(parent);
            assert_eq!(
                offered.contains(&child),
                allowed && !already_there,
                "sub-issue offer for #{child} under #{parent}"
            );
        }
    }
    for &child in &ids {
        let offered: Vec<IssueId> = p
            .eligible_parents(child)
            .iter()
            .map(|issue| issue.id)
            .collect();
        for &parent in &ids {
            assert_eq!(
                offered.contains(&parent),
                p.may_attach(child, parent).is_ok(),
                "parent offer of #{parent} for #{child}"
            );
        }
    }
}

/// The index exists only to answer the scan's question faster. If the two
/// ever disagree, a row shows a different `2/3` and a different total from
/// the detail pane beside it — so they are checked against each other
/// rather than each against a hand-written expectation.
#[test]
fn the_index_answers_exactly_what_scanning_would() {
    let mut p = projection();
    let top = filed(&mut p, "top");
    let other = filed(&mut p, "other");
    let childless = filed(&mut p, "childless");
    for title in ["a", "b", "c"] {
        let child = filed(&mut p, title);
        p.set_parent(child, Some(top)).unwrap();
    }
    let settled = filed(&mut p, "settled");
    p.set_parent(settled, Some(other)).unwrap();
    p.patch(settled, IssuePatch::default().status(Status::Done))
        .unwrap();

    let index = p.sub_issue_index();
    for issue in p.issues() {
        let scanned = p.sub_issues(issue.id);
        assert_eq!(
            index.of_issue(issue.id),
            scanned.as_slice(),
            "parts of #{}",
            issue.id
        );
        assert_eq!(
            index.settled_progress(issue.id),
            p.settled_progress(issue.id),
            "progress of #{}",
            issue.id
        );
    }
    assert!(index.of_issue(childless).is_empty());
    assert_eq!(index.settled_progress(childless), None);
    assert_eq!(index.settled_progress(top), Some((0, 3)));
    assert_eq!(index.settled_progress(other), Some((1, 1)));
}

#[test]
fn a_sub_issue_is_never_offered_anything_to_hold() {
    // The gap: this used to return a full list for a parent that was
    // itself a sub-issue, so every candidate would be refused on click.
    // It was only ever right because the detail pane hides that picker.
    let mut p = projection();
    let top = filed(&mut p, "top");
    let middle = filed(&mut p, "middle");
    filed(&mut p, "loner");
    p.set_parent(middle, Some(top)).unwrap();

    assert!(
        p.eligible_sub_issues(middle).is_empty(),
        "a sub-issue cannot take sub-issues"
    );
    offers_agree_with_refusals(&p);
}

#[test]
fn what_is_offered_is_exactly_what_would_be_accepted() {
    let mut p = projection();
    let parent = filed(&mut p, "parent");
    let child = filed(&mut p, "child");
    let done = filed(&mut p, "done");
    let settled = filed(&mut p, "settled");
    let loner = filed(&mut p, "loner");

    p.set_parent(child, Some(parent)).unwrap();
    p.patch(done, IssuePatch::default().status(Status::Done))
        .unwrap();
    p.patch(settled, IssuePatch::default().status(Status::Cancelled))
        .unwrap();

    // Every combination, in a corpus holding a parent, a sub-issue, a
    // Done issue, a Cancelled one and an unattached one.
    offers_agree_with_refusals(&p);

    // And the individual rules, so a failure above is readable.
    assert!(!p.eligible_parents(child).iter().any(|i| i.id == child));
    assert!(
        !p.eligible_parents(loner).iter().any(|i| i.id == done),
        "a Done issue cannot take on outstanding work"
    );
    assert!(
        p.eligible_parents(settled).iter().any(|i| i.id == done),
        "but it can take on work that is already settled"
    );
    assert!(
        !p.eligible_parents(loner).iter().any(|i| i.id == child),
        "a sub-issue cannot be a parent"
    );
}

#[test]
fn a_new_projection_is_empty() {
    assert!(projection().issues().is_empty());
}

#[test]
fn create_with_no_extra_fields_matches_the_stores_defaults() {
    let mut p = projection();
    let issue = p.create("plain", IssuePatch::default(), None).unwrap();

    assert_eq!(issue.title, "plain");
    assert_eq!(issue.status, Status::Todo);
    assert_eq!(issue.priority, Priority::Unset);
    assert!(issue.tags.is_empty());
}

#[test]
fn create_applies_the_rest_of_the_fields_in_one_call() {
    let mut p = projection();
    let issue = p
        .create(
            "full",
            IssuePatch::default()
                .body("described")
                .status(Status::Doing)
                .priority(Priority::Urgent)
                .tags(vec![tag("Bug")]),
            None,
        )
        .unwrap();

    assert_eq!(issue.body, "described");
    assert_eq!(issue.status, Status::Doing);
    assert_eq!(issue.priority, Priority::Urgent);
    assert_eq!(issue.tags, vec![tag("Bug")]);
}

#[test]
fn a_patch_touches_only_the_fields_it_names() {
    // The property the whole API design rests on: a caller setting Status
    // cannot clobber a title another caller is editing.
    let mut p = projection();
    let created = p.create("original", IssuePatch::default(), None).unwrap();

    p.patch(created.id, IssuePatch::default().status(Status::Done))
        .unwrap();

    let after = p.get(created.id).unwrap();
    assert_eq!(after.status, Status::Done);
    assert_eq!(
        after.title, "original",
        "title was not named, so not written"
    );
}

#[test]
fn patching_an_unknown_issue_reports_rather_than_panics() {
    let mut p = projection();
    let err = p
        .patch(404, IssuePatch::default().title("ghost"))
        .unwrap_err();
    assert!(matches!(err, WriteError::NotFound(404)));
}

#[test]
fn a_patch_that_changes_nothing_does_not_move_updated_at() {
    let mut p = projection();
    let created = p.create("stable", IssuePatch::default(), None).unwrap();

    p.patch(created.id, IssuePatch::default().title("stable"))
        .unwrap();

    assert_eq!(p.get(created.id).unwrap().updated_at, created.updated_at);
}

#[test]
fn a_real_patch_does_move_updated_at() {
    let mut p = projection();
    let created = p.create("moving", IssuePatch::default(), None).unwrap();

    p.patch(created.id, IssuePatch::default().title("moved"))
        .unwrap();

    assert!(p.get(created.id).unwrap().updated_at >= created.updated_at);
}

#[test]
fn tags_arriving_by_patch_fold_against_the_established_spelling() {
    let mut p = projection();
    let first = p
        .create("first", IssuePatch::default().tags(vec![tag("Bug")]), None)
        .unwrap();
    let second = p.create("second", IssuePatch::default(), None).unwrap();

    // Lowercase on the way in; the corpus already says "Bug".
    p.patch(second.id, IssuePatch::default().tags(vec![tag("bug")]))
        .unwrap();

    assert_eq!(p.get(second.id).unwrap().tags[0].as_str(), "Bug");
    assert_eq!(p.tags_in_use().len(), 1);
    assert_eq!(p.count_with_tag(&tag("BUG")), 2);
    assert_eq!(first.tags[0].as_str(), "Bug");
}

#[test]
fn adding_a_tag_leaves_the_others_alone() {
    let mut p = projection();
    let issue = p
        .create("tagged", IssuePatch::default().tags(vec![tag("ui")]), None)
        .unwrap();

    p.add_tag(issue.id, tag("Bug")).unwrap();

    assert_eq!(p.get(issue.id).unwrap().tags, vec![tag("Bug"), tag("ui")]);
}

#[test]
fn adding_a_tag_twice_is_idempotent() {
    let mut p = projection();
    let issue = p.create("tagged", IssuePatch::default(), None).unwrap();

    p.add_tag(issue.id, tag("Bug")).unwrap();
    p.add_tag(issue.id, tag("bug")).unwrap();

    assert_eq!(p.get(issue.id).unwrap().tags, vec![tag("Bug")]);
}

#[test]
fn removing_a_tag_is_case_insensitive_and_idempotent() {
    let mut p = projection();
    let issue = p
        .create("tagged", IssuePatch::default().tags(vec![tag("Bug")]), None)
        .unwrap();

    p.remove_tag(issue.id, &tag("BUG")).unwrap();
    p.remove_tag(issue.id, &tag("BUG")).unwrap();

    assert!(p.get(issue.id).unwrap().tags.is_empty());
    assert!(p.tags_in_use().len() == 0, "the Tag went with its last use");
}

#[test]
fn deleting_reports_whether_there_was_anything_to_delete() {
    let mut p = projection();
    let issue = p.create("doomed", IssuePatch::default(), None).unwrap();

    p.delete(issue.id).unwrap();
    assert!(
        matches!(p.delete(issue.id).unwrap_err(), WriteError::NotFound(_)),
        "already gone"
    );
    assert!(p.issues().is_empty());
}

// ---- sub-issues ---------------------------------------------------------

fn refusal(err: WriteError) -> Refused {
    match err {
        WriteError::Refused(refusal) => refusal,
        other => panic!("expected a refusal, got {other:?}"),
    }
}

/// A parent with `count` sub-issues, all Todo.
fn family(p: &mut Desk, count: usize) -> (IssueId, Vec<IssueId>) {
    let parent = p.create("parent", IssuePatch::default(), None).unwrap().id;
    let children = (0..count)
        .map(|n| {
            let child = p
                .create(&format!("child {n}"), IssuePatch::default(), None)
                .unwrap();
            p.set_parent(child.id, Some(parent)).unwrap();
            child.id
        })
        .collect();
    (parent, children)
}

#[test]
fn attaching_and_detaching_a_sub_issue() {
    let mut p = projection();
    let (parent, children) = family(&mut p, 2);

    assert_eq!(p.sub_issues(parent).len(), 2);
    assert_eq!(p.get(children[0]).unwrap().parent_id, Some(parent));

    p.set_parent(children[0], None).unwrap();
    assert_eq!(p.sub_issues(parent).len(), 1);
    assert_eq!(p.get(children[0]).unwrap().parent_id, None);
}

#[test]
fn attaching_an_issue_that_already_has_a_parent_moves_it() {
    // There is no separate move operation: setting the parent is one.
    let mut p = projection();
    let (first, children) = family(&mut p, 1);
    let second = p
        .create("second parent", IssuePatch::default(), None)
        .unwrap()
        .id;

    p.set_parent(children[0], Some(second)).unwrap();

    assert!(p.sub_issues(first).is_empty(), "moved out of the first");
    assert_eq!(p.sub_issues(second).len(), 1);
}

#[test]
fn hierarchy_is_one_level_deep_from_both_ends() {
    let mut p = projection();
    let (parent, children) = family(&mut p, 1);
    let outsider = p
        .create("outsider", IssuePatch::default(), None)
        .unwrap()
        .id;

    // A sub-issue cannot become a parent.
    assert_eq!(
        refusal(p.set_parent(outsider, Some(children[0])).unwrap_err()),
        Refused::ParentIsSubIssue(children[0])
    );
    // Something that already has parts cannot become a part.
    assert_eq!(
        refusal(p.set_parent(parent, Some(outsider)).unwrap_err()),
        Refused::ChildHasSubIssues(parent)
    );
}

#[test]
fn an_issue_cannot_be_its_own_parent() {
    let mut p = projection();
    let issue = p.create("lonely", IssuePatch::default(), None).unwrap().id;
    assert_eq!(
        refusal(p.set_parent(issue, Some(issue)).unwrap_err()),
        Refused::SelfParent
    );
}

#[test]
fn a_parent_is_not_done_until_nothing_under_it_is_outstanding() {
    let mut p = projection();
    let (parent, children) = family(&mut p, 2);

    assert!(!p.can_be_done(parent));
    assert_eq!(
        refusal(
            p.patch(parent, IssuePatch::default().status(Status::Done))
                .unwrap_err()
        ),
        Refused::SubIssuesOutstanding(2)
    );

    p.patch(children[0], IssuePatch::default().status(Status::Done))
        .unwrap();
    assert!(!p.can_be_done(parent), "one still open");

    p.patch(children[1], IssuePatch::default().status(Status::Done))
        .unwrap();
    assert!(p.can_be_done(parent));
    p.patch(parent, IssuePatch::default().status(Status::Done))
        .unwrap();
    assert_eq!(p.get(parent).unwrap().status, Status::Done);
}

#[test]
fn a_cancelled_sub_issue_counts_as_settled() {
    // Blocking on it would push you toward deleting a record the glossary
    // says is worth keeping.
    let mut p = projection();
    let (parent, children) = family(&mut p, 1);

    p.patch(children[0], IssuePatch::default().status(Status::Cancelled))
        .unwrap();

    assert!(p.can_be_done(parent));
    assert!(
        p.patch(parent, IssuePatch::default().status(Status::Done))
            .is_ok()
    );
}

#[test]
fn a_parent_may_be_cancelled_with_work_still_open_beneath_it() {
    let mut p = projection();
    let (parent, _) = family(&mut p, 2);
    assert!(
        p.patch(parent, IssuePatch::default().status(Status::Cancelled))
            .is_ok(),
        "cancelling propagates to nothing and is never blocked"
    );
}

#[test]
fn a_sub_issue_cannot_be_reopened_under_a_done_parent() {
    // The invariant has to be unreachable from below too, or it is only
    // true at the instant you press the button.
    let mut p = projection();
    let (parent, children) = family(&mut p, 1);
    p.patch(children[0], IssuePatch::default().status(Status::Done))
        .unwrap();
    p.patch(parent, IssuePatch::default().status(Status::Done))
        .unwrap();

    assert_eq!(
        refusal(
            p.patch(children[0], IssuePatch::default().status(Status::Todo))
                .unwrap_err()
        ),
        Refused::ParentIsDone(parent)
    );
    // Cancelling it is still settled, so still allowed.
    assert!(
        p.patch(children[0], IssuePatch::default().status(Status::Cancelled))
            .is_ok()
    );
}

/// Only Done constrains a parent. Cancelling is a decision about the
/// parent's own work, not a claim that everything beneath it is finished,
/// so it neither blocks nor is blocked — which is what the glossary means
/// by cancelling a Parent never being blocked.
#[test]
fn a_cancelled_parent_takes_work_as_any_other_issue_does() {
    let mut p = projection();
    let parent = p
        .create(
            "abandoned",
            IssuePatch::default().status(Status::Cancelled),
            None,
        )
        .unwrap()
        .id;
    let open = p
        .create("still wanted", IssuePatch::default(), None)
        .unwrap()
        .id;

    assert!(p.set_parent(open, Some(parent)).is_ok());
    assert!(
        p.patch(open, IssuePatch::default().status(Status::Doing))
            .is_ok(),
        "and it can still be moved along underneath"
    );
}

#[test]
fn a_done_parent_will_not_take_on_outstanding_work() {
    let mut p = projection();
    let parent = p
        .create("done", IssuePatch::default().status(Status::Done), None)
        .unwrap()
        .id;
    let open = p.create("open", IssuePatch::default(), None).unwrap().id;
    let closed = p
        .create("closed", IssuePatch::default().status(Status::Done), None)
        .unwrap()
        .id;

    assert_eq!(
        refusal(p.set_parent(open, Some(parent)).unwrap_err()),
        Refused::ParentAlreadyDone(parent)
    );
    assert!(
        p.set_parent(closed, Some(parent)).is_ok(),
        "already settled"
    );
}

#[test]
fn detaching_is_always_allowed_even_from_a_done_parent() {
    let mut p = projection();
    let (parent, children) = family(&mut p, 1);
    p.patch(children[0], IssuePatch::default().status(Status::Done))
        .unwrap();
    p.patch(parent, IssuePatch::default().status(Status::Done))
        .unwrap();

    assert!(p.set_parent(children[0], None).is_ok());
}

#[test]
fn deleting_a_parent_orphans_its_children_rather_than_erasing_them() {
    let mut p = projection();
    let (parent, children) = family(&mut p, 2);

    p.delete(parent).unwrap();

    assert_eq!(p.issues().len(), 2, "the work survives");
    for child in children {
        assert_eq!(p.get(child).unwrap().parent_id, None);
    }
}

#[test]
fn orphaning_survives_a_reload() {
    let mut p = projection();
    let (parent, children) = family(&mut p, 1);
    p.delete(parent).unwrap();

    let reloaded = p.disk.load_all();
    let child = reloaded.iter().find(|i| i.id == children[0]).unwrap();
    assert_eq!(child.parent_id, None);
}

#[test]
fn settled_progress_matches_the_completion_rule() {
    let mut p = projection();
    let (parent, children) = family(&mut p, 3);
    assert_eq!(p.settled_progress(parent), Some((0, 3)));

    p.patch(children[0], IssuePatch::default().status(Status::Done))
        .unwrap();
    p.patch(children[1], IssuePatch::default().status(Status::Cancelled))
        .unwrap();
    assert_eq!(p.settled_progress(parent), Some((2, 3)));
    assert!(!p.can_be_done(parent));

    assert_eq!(
        p.settled_progress(children[0]),
        None,
        "no children of its own"
    );
}

#[test]
fn candidate_lists_exclude_what_would_be_refused() {
    let mut p = projection();
    let (parent, children) = family(&mut p, 1);
    let loose = p.create("loose", IssuePatch::default(), None).unwrap().id;

    let candidates: Vec<IssueId> = p
        .eligible_sub_issues(parent)
        .iter()
        .map(|issue| issue.id)
        .collect();
    assert!(candidates.contains(&loose));
    assert!(!candidates.contains(&parent), "not itself");
    assert!(!candidates.contains(&children[0]), "already there");

    // A parent cannot itself be filed under anything.
    assert!(p.eligible_parents(parent).is_empty());
    let parents: Vec<IssueId> = p
        .eligible_parents(loose)
        .iter()
        .map(|issue| issue.id)
        .collect();
    assert!(parents.contains(&parent));
    assert!(!parents.contains(&children[0]), "already a sub-issue");
}

#[test]
fn issues_are_kept_in_display_order() {
    let mut p = projection();
    p.create("low", IssuePatch::default().priority(Priority::Low), None)
        .unwrap();
    let urgent = p
        .create(
            "urgent",
            IssuePatch::default().priority(Priority::Urgent),
            None,
        )
        .unwrap();

    assert_eq!(p.issues()[0].id, urgent.id);
}

/// The Issues as the database has them, which is what a restart would show.
fn on_disk(p: &Desk) -> Vec<Issue> {
    let mut issues = p.disk.load_all();
    sort_for_display(&mut issues);
    issues
}

#[test]
fn a_patch_the_store_refuses_leaves_memory_untouched() {
    // A change the database never took must
    // not be shown either, or it is on screen until a restart erases it.
    let mut p = projection();
    let id = filed(&mut p, "before");
    p.disk.read_only = true;

    let err = p
        .patch(
            id,
            IssuePatch::default().title("after").tags(vec![tag("ui")]),
        )
        .unwrap_err();

    assert!(matches!(err, WriteError::Store(_)));
    assert_eq!(p.get(id).unwrap().title, "before");
    assert!(p.get(id).unwrap().tags.is_empty());
    assert_eq!(p.issues(), on_disk(&p).as_slice());
}

#[test]
fn an_attach_the_store_refuses_leaves_memory_untouched() {
    let mut p = projection();
    let parent = filed(&mut p, "parent");
    let child = filed(&mut p, "child");
    p.disk.read_only = true;

    let err = p.set_parent(child, Some(parent)).unwrap_err();

    assert!(matches!(err, WriteError::Store(_)));
    assert_eq!(p.get(child).unwrap().parent_id, None);
    assert!(p.sub_issues(parent).is_empty());
    assert_eq!(p.issues(), on_disk(&p).as_slice());
}

#[test]
fn a_create_that_fails_part_way_files_nothing() {
    // The row is written before its Tags, so failing on the Tags is the
    // half-written case: nothing at all may survive it.
    let mut p = projection();
    p.disk.no_tags = true;

    let err = p
        .create("tagged", IssuePatch::default().tags(vec![tag("ui")]), None)
        .unwrap_err();

    assert!(matches!(err, WriteError::Store(_)));
    assert!(p.issues().is_empty());
    assert!(on_disk(&p).is_empty());
}

#[test]
fn a_create_under_a_parent_is_filed_there_in_one_step() {
    let mut p = projection();
    let parent = filed(&mut p, "parent");

    let child = p
        .create("child", IssuePatch::default(), Some(parent))
        .unwrap();

    assert_eq!(child.parent_id, Some(parent));
    assert_eq!(child.created_at, child.updated_at, "one write, not two");
    assert_eq!(p.issues(), on_disk(&p).as_slice());
}

#[test]
fn a_create_under_a_refusing_parent_files_nothing() {
    let mut p = projection();
    let parent = p
        .create("done", IssuePatch::default().status(Status::Done), None)
        .unwrap()
        .id;

    let err = p
        .create("open work", IssuePatch::default(), Some(parent))
        .unwrap_err();

    assert!(matches!(
        err,
        WriteError::Refused(Refused::ParentAlreadyDone(id)) if id == parent
    ));
    assert_eq!(p.issues().len(), 1);
    assert!(matches!(
        p.create("orphan", IssuePatch::default(), Some(404)),
        Err(WriteError::NotFound(404))
    ));
    assert_eq!(on_disk(&p).len(), 1);
}

#[test]
fn writes_survive_a_reload_from_the_same_database() {
    // An in-memory change that never reached the database looks identical
    // until you restart.
    let mut p = projection();
    let issue = p
        .create(
            "persisted",
            IssuePatch::default()
                .status(Status::Blocked)
                .tags(vec![tag("ui")]),
            None,
        )
        .unwrap();

    let reloaded = p.disk.load_all();
    let found = reloaded.iter().find(|i| i.id == issue.id).unwrap();
    assert_eq!(found.status, Status::Blocked);
    assert_eq!(found.tags, vec![tag("ui")]);
}

#[test]
fn a_delete_the_store_refuses_leaves_memory_untouched() {
    let mut p = projection();
    let (parent, children) = family(&mut p, 1);
    p.disk.read_only = true;

    let err = p.delete(parent).unwrap_err();

    assert_eq!(err.to_string(), "attempt to write a readonly database");
    assert_eq!(p.issues().len(), 2);
    assert_eq!(p.get(children[0]).unwrap().parent_id, Some(parent));
}

#[test]
fn every_refusal_is_a_sentence() {
    assert_eq!(
        WriteError::NotFound(7).to_string(),
        "no issue #7",
    );
    assert_eq!(
        Refused::SubIssuesOutstanding(3).to_string(),
        "3 sub-issue(s) are still outstanding"
    );
    assert_eq!(
        Refused::ParentIsDone(4).to_string(),
        "its parent #4 is Done; reopen that first"
    );
    for refusal in [
        Refused::SelfParent,
        Refused::ParentIsSubIssue(1),
        Refused::ChildHasSubIssues(2),
        Refused::ParentAlreadyDone(3),
    ] {
        let sentence = WriteError::Refused(refusal).to_string();
        assert_eq!(sentence, refusal.to_string());
        assert!(!sentence.is_empty());
    }
}

#[test]
fn patches_to_different_fields_meet_without_clobbering() {
    let mut p = projection();
    let id = filed(&mut p, "one");
    p.patch(id, IssuePatch::default().title("two")).unwrap();
    p.patch(id, IssuePatch::default().size(9)).unwrap();
    p.patch(id, IssuePatch::default().status(Status::Blocked)).unwrap();

    let after = p.get(id).unwrap();
    assert_eq!(after.title, "two");
    assert_eq!(after.size, Some(9));
    assert_eq!(after.status, Status::Blocked);

    p.patch(id, IssuePatch::default().clear_size()).unwrap();
    assert_eq!(p.get(id).unwrap().size, None);
    assert_eq!(p.issues(), on_disk(&p).as_slice());
}

#[test]
fn the_family_rules_hold_where_a_tag_is_spelled_two_ways() {
    let mut p = projection();
    let parent = filed(&mut p, "parent");
    let part = filed(&mut p, "part");
    let other = filed(&mut p, "other");
    let mut issues = p.issues().to_vec();
    for (issue, name) in issues.iter_mut().zip(["Bug", "bug", "BUG"]) {
        issue.tags = vec![tag(name)];
    }
    p.projection = Projection::load(issues);

    p.set_parent(part, Some(parent)).unwrap();
    assert!(p.set_parent(other, Some(part)).is_err(), "a second level");
    assert!(p.set_parent(parent, Some(other)).is_err(), "a second level");
    let done = || IssuePatch::default().status(Status::Done);
    assert!(p.patch(parent, done()).is_err(), "outstanding work");

    p.patch(part, done()).unwrap();
    p.patch(parent, done()).unwrap();
    assert!(p.set_parent(other, Some(parent)).is_err(), "outstanding work");
    assert!(p.patch(part, IssuePatch::default().status(Status::Todo)).is_err());
    assert_eq!(p.get(part).unwrap().parent_id, Some(parent));
}
