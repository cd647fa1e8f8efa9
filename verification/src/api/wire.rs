//! The JSON shapes on the wire, and their conversion to domain types.
//!
//! Enum values are spelled exactly as [`Status::label`] and [`Priority::label`]
//! produce them: the same text the database stores and the window displays. One
//! spelling everywhere means no mapping table to keep in step, and reading
//! already rejects anything else with a usable message.

use std::str::FromStr;

use vstd::prelude::*;

use crate::api::http::optional_text;
use crate::domain::issue;
use crate::domain::issue::{Issue, IssueModel, SizeRollup};
use crate::domain::kinds::{IssueId, ParseError, ParseErrorModel, Priority, Size, Status};
use crate::domain::tag;
use crate::domain::tag::Tag;
use crate::json;
use crate::projection::model;
use crate::projection::{count_settled, IssuePatch, PatchModel};
use crate::text;
use crate::time;

verus! {

broadcast use vstd::seq_lib::group_seq_properties;

// ---------------------------------------------------------------------------
// Issues
// ---------------------------------------------------------------------------

/// An Issue as it goes out.
#[derive(Debug, Clone, PartialEq, Eq)]
pub struct IssueJson {
    pub id: IssueId,
    pub title: String,
    pub body: String,
    pub status: String,
    pub priority: String,
    /// This Issue's own Size. For a Parent, the work its parts do not cover.
    pub size: Option<Size>,
    /// Own Size plus its parts', or `null` when nothing in the family carries
    /// one. Read-only and derived: a client cannot compute it, because it does
    /// not hold the parts' Sizes.
    pub total_size: Option<u32>,
    /// How many parts have no Size. The number of parts is that of
    /// `sub_issue_ids`, so only this half needs sending.
    pub unsized_sub_issues: usize,
    pub tags: Vec<String>,
    /// The Issue this one is part of. Read-only here: attach and detach go
    /// through `PUT`/`DELETE /issues/{parent}/sub-issues/{child}`.
    pub parent_id: Option<IssueId>,
    /// Read-only, and in display order.
    pub sub_issue_ids: Vec<IssueId>,
    /// How many of those are settled: Done or Cancelled. The total is the
    /// number of `sub_issue_ids`, so only this half needs sending; two
    /// spellings of one number is a thing that can disagree with itself.
    pub settled_sub_issues: usize,
    pub created_at: String,
    /// Present from the first release so `If-Match` can be added later without
    /// changing the shape clients already parse.
    pub updated_at: String,
}

/// An Issue as it goes out, as the contracts speak of it.
#[verifier::ext_equal]
pub struct IssueJsonModel {
    pub id: IssueId,
    pub title: Seq<char>,
    pub body: Seq<char>,
    pub status: Seq<char>,
    pub priority: Seq<char>,
    pub size: Option<Size>,
    pub total_size: Option<u32>,
    pub unsized_sub_issues: usize,
    pub tags: Seq<Seq<char>>,
    pub parent_id: Option<IssueId>,
    pub sub_issue_ids: Seq<IssueId>,
    pub settled_sub_issues: usize,
    pub created_at: Seq<char>,
    pub updated_at: Seq<char>,
}

impl View for IssueJson {
    type V = IssueJsonModel;

    open spec fn view(&self) -> IssueJsonModel {
        IssueJsonModel {
            id: self.id,
            title: self.title@,
            body: self.body@,
            status: self.status@,
            priority: self.priority@,
            size: self.size,
            total_size: self.total_size,
            unsized_sub_issues: self.unsized_sub_issues,
            tags: text::texts(self.tags@),
            parent_id: self.parent_id,
            sub_issue_ids: self.sub_issue_ids@,
            settled_sub_issues: self.settled_sub_issues,
            created_at: self.created_at@,
            updated_at: self.updated_at@,
        }
    }
}

/// Whether the Sizes of an Issue and its parts add up to a number that can be
/// sent.
pub open spec fn total_fits(own: IssueModel, parts: Seq<IssueModel>) -> bool {
    issue::size_sum(issue::family_sizes(own, parts)) <= u32::MAX
}

/// How an Issue goes out, given its parts.
pub open spec fn shown(own: IssueModel, parts: Seq<IssueModel>) -> IssueJsonModel {
    IssueJsonModel {
        id: own.id,
        title: own.title,
        body: own.body,
        status: own.status.name(),
        priority: own.priority.name(),
        size: own.size,
        total_size: match issue::family_total(own, parts) {
            Some(total) => Some(total as u32),
            None => None,
        },
        unsized_sub_issues: issue::unsized_parts(parts) as usize,
        tags: own.tags,
        parent_id: own.parent_id,
        sub_issue_ids: parts.map_values(|part: IssueModel| part.id),
        settled_sub_issues: model::settled_of(parts).len() as usize,
        created_at: time::rfc3339_text(own.created_at.spec_secs(), own.created_at.spec_nanos()),
        updated_at: time::rfc3339_text(own.updated_at.spec_secs(), own.updated_at.spec_nanos()),
    }
}

/// An optional number as an integer.
pub open spec fn size_number(size: Option<Size>) -> Option<int> {
    match size {
        Some(n) => Some(n as int),
        None => None,
    }
}

/// The fields of an Issue's JSON.
pub open spec fn issue_fields(shown: IssueJsonModel) -> Seq<Seq<char>> {
    seq![
        json::field_text("id"@, text::decimal(shown.id as int)),
        json::field_text("title"@, json::json_text(shown.title)),
        json::field_text("body"@, json::json_text(shown.body)),
        json::field_text("status"@, json::json_text(shown.status)),
        json::field_text("priority"@, json::json_text(shown.priority)),
        json::field_text("size"@, json::number_or_null(size_number(shown.size))),
        json::field_text(
            "total_size"@,
            json::number_or_null(
                match shown.total_size {
                    Some(n) => Some(n as int),
                    None => None,
                },
            ),
        ),
        json::field_text("unsized_sub_issues"@, text::decimal(shown.unsized_sub_issues as int)),
        json::field_text("tags"@, json::strings_text(shown.tags)),
        json::field_text(
            "parent_id"@,
            json::number_or_null(
                match shown.parent_id {
                    Some(n) => Some(n as int),
                    None => None,
                },
            ),
        ),
        json::field_text(
            "sub_issue_ids"@,
            json::array_text(
                shown.sub_issue_ids.map_values(|id: IssueId| text::decimal(id as int)),
            ),
        ),
        json::field_text("settled_sub_issues"@, text::decimal(shown.settled_sub_issues as int)),
        json::field_text("created_at"@, json::json_text(shown.created_at)),
        json::field_text("updated_at"@, json::json_text(shown.updated_at)),
    ]
}

/// The JSON of an Issue.
pub open spec fn issue_text(shown: IssueJsonModel) -> Seq<char> {
    json::object_text(issue_fields(shown))
}

/// The names of some Tags, as strings.
pub fn tag_strings(tags: &[Tag]) -> (r: Vec<String>)
    ensures
        text::texts(r@) == tag::names(tags@),
{
    let mut out: Vec<String> = Vec::new();
    let mut i: usize = 0;
    while i < tags.len()
        invariant
            i <= tags@.len(),
            out@.len() == i,
            forall|j: int| 0 <= j < i ==> (#[trigger] out@[j])@ == tags@[j]@,
        decreases tags@.len() - i,
    {
        out.push(tags[i].to_string());
        i += 1;
    }
    assert(text::texts(out@) =~= tag::names(tags@));
    out
}

/// The ids of some Issues.
fn ids_of(issues: &[&Issue]) -> (r: Vec<IssueId>)
    ensures
        r@ == issue::models_of(issues@).map_values(|part: IssueModel| part.id),
{
    let mut out: Vec<IssueId> = Vec::new();
    let mut i: usize = 0;
    while i < issues.len()
        invariant
            i <= issues@.len(),
            out@.len() == i,
            forall|j: int| 0 <= j < i ==> #[trigger] out@[j] == issues@[j].id,
        decreases issues@.len() - i,
    {
        out.push(issues[i].id);
        i += 1;
    }
    assert(out@ =~= issue::models_of(issues@).map_values(|part: IssueModel| part.id));
    out
}

/// Writes an array of ids.
fn id_array(ids: &Vec<IssueId>) -> (r: String)
    ensures
        r@ == json::array_text(ids@.map_values(|id: IssueId| text::decimal(id as int))),
{
    let mut out: Vec<String> = Vec::new();
    let mut i: usize = 0;
    while i < ids.len()
        invariant
            i <= ids@.len(),
            out@.len() == i,
            forall|j: int| 0 <= j < i ==> (#[trigger] out@[j])@ == text::decimal(ids@[j] as int),
        decreases ids@.len() - i,
    {
        out.push(text::decimal_i64(ids[i]));
        i += 1;
    }
    assert(text::texts(out@) =~= ids@.map_values(|id: IssueId| text::decimal(id as int)));
    json::array(&out)
}

impl IssueJson {
    /// The children come from the caller because an Issue does not know its
    /// own: that is a fact about the whole corpus.
    ///
    /// They arrive as Issues rather than as ids and a count, so the numbers
    /// that go out are derived from one slice and cannot contradict each other.
    pub fn new(issue: &Issue, sub_issues: &[&Issue]) -> (r: IssueJson)
        requires
            total_fits(issue@, issue::models_of(sub_issues@)),
        ensures
            r@ == shown(issue@, issue::models_of(sub_issues@)),
    {
        let rollup = SizeRollup::of(issue, sub_issues);
        let r = IssueJson {
            sub_issue_ids: ids_of(sub_issues),
            settled_sub_issues: count_settled(sub_issues),
            size: issue.size,
            total_size: rollup.total,
            unsized_sub_issues: rollup.unsized_sub_issues,
            parent_id: issue.parent_id,
            id: issue.id,
            title: issue.title.clone(),
            body: issue.body.clone(),
            status: issue.status.to_string(),
            priority: issue.priority.to_string(),
            tags: tag_strings(issue.tags.as_slice()),
            created_at: issue.created_at.to_text(),
            updated_at: issue.updated_at.to_text(),
        };
        assert(r@ =~= shown(issue@, issue::models_of(sub_issues@)));
        r
    }

    /// The Issue as JSON.
    pub fn to_json(&self) -> (r: String)
        ensures
            r@ == issue_text(self@),
    {
        let total: Option<i64> = match self.total_size {
            Some(n) => Some(n as i64),
            None => None,
        };
        let mut fields: Vec<String> = Vec::new();
        fields.push(json::field("id", text::decimal_i64(self.id).as_str()));
        fields.push(json::field("title", json::string(self.title.as_str()).as_str()));
        fields.push(json::field("body", json::string(self.body.as_str()).as_str()));
        fields.push(json::field("status", json::string(self.status.as_str()).as_str()));
        fields.push(json::field("priority", json::string(self.priority.as_str()).as_str()));
        fields.push(json::field("size", size_json(self.size).as_str()));
        fields.push(json::field("total_size", json::optional(total).as_str()));
        fields.push(
            json::field(
                "unsized_sub_issues",
                text::decimal_u64(self.unsized_sub_issues as u64).as_str(),
            ),
        );
        fields.push(json::field("tags", json::strings(&self.tags).as_str()));
        fields.push(json::field("parent_id", json::optional(self.parent_id).as_str()));
        fields.push(json::field("sub_issue_ids", id_array(&self.sub_issue_ids).as_str()));
        fields.push(
            json::field(
                "settled_sub_issues",
                text::decimal_u64(self.settled_sub_issues as u64).as_str(),
            ),
        );
        fields.push(json::field("created_at", json::string(self.created_at.as_str()).as_str()));
        fields.push(json::field("updated_at", json::string(self.updated_at.as_str()).as_str()));
        let r = json::object(&fields);
        assert(text::texts(fields@) =~= issue_fields(self@));
        r
    }
}

/// Writes a Size, or `null` where there is none.
fn size_json(size: Option<Size>) -> (r: String)
    ensures
        r@ == json::number_or_null(size_number(size)),
{
    match size {
        Some(n) => text::decimal_u64(n as u64),
        None => "null".to_owned(),
    }
}

/// The JSON of a list of Issues.
pub open spec fn issues_text(list: Seq<IssueJsonModel>) -> Seq<char> {
    json::array_text(list.map_values(|one: IssueJsonModel| issue_text(one)))
}

/// The models of a list of Issues as they go out.
pub open spec fn json_models(list: Seq<IssueJson>) -> Seq<IssueJsonModel> {
    list.map_values(|one: IssueJson| one@)
}

/// A list of Issues as JSON.
pub fn issues_json(list: &Vec<IssueJson>) -> (r: String)
    ensures
        r@ == issues_text(json_models(list@)),
{
    let mut out: Vec<String> = Vec::new();
    let mut i: usize = 0;
    while i < list.len()
        invariant
            i <= list@.len(),
            out@.len() == i,
            forall|j: int| 0 <= j < i ==> (#[trigger] out@[j])@ == issue_text(list@[j]@),
        decreases list@.len() - i,
    {
        out.push(list[i].to_json());
        i += 1;
    }
    assert(text::texts(out@) =~= json_models(list@).map_values(
        |one: IssueJsonModel| issue_text(one),
    ));
    json::array(&out)
}

// ---------------------------------------------------------------------------
// Tags
// ---------------------------------------------------------------------------

/// A Tag as it goes out.
#[derive(Debug, Clone, PartialEq, Eq)]
pub struct TagJson {
    pub name: String,
    pub count: usize,
}

/// A Tag as it goes out, as the contracts speak of it.
#[verifier::ext_equal]
pub struct TagJsonModel {
    pub name: Seq<char>,
    pub count: usize,
}

impl View for TagJson {
    type V = TagJsonModel;

    open spec fn view(&self) -> TagJsonModel {
        TagJsonModel { name: self.name@, count: self.count }
    }
}

/// The models of a list of Tags as they go out.
pub open spec fn tag_models(list: Seq<TagJson>) -> Seq<TagJsonModel> {
    list.map_values(|one: TagJson| one@)
}

/// The JSON of a Tag.
pub open spec fn tag_text(shown: TagJsonModel) -> Seq<char> {
    json::object_text(
        seq![
            json::field_text("name"@, json::json_text(shown.name)),
            json::field_text("count"@, text::decimal(shown.count as int)),
        ],
    )
}

/// The JSON of a list of Tags.
pub open spec fn tags_text(list: Seq<TagJsonModel>) -> Seq<char> {
    json::array_text(list.map_values(|one: TagJsonModel| tag_text(one)))
}

impl TagJson {
    /// The Tag as JSON.
    pub fn to_json(&self) -> (r: String)
        ensures
            r@ == tag_text(self@),
    {
        let mut fields: Vec<String> = Vec::new();
        fields.push(json::field("name", json::string(self.name.as_str()).as_str()));
        fields.push(json::field("count", text::decimal_u64(self.count as u64).as_str()));
        assert(text::texts(fields@) =~= seq![
            json::field_text("name"@, json::json_text(self@.name)),
            json::field_text("count"@, text::decimal(self@.count as int)),
        ]);
        json::object(&fields)
    }
}

/// A list of Tags as JSON.
pub fn tags_json(list: &Vec<TagJson>) -> (r: String)
    ensures
        r@ == tags_text(tag_models(list@)),
{
    let mut out: Vec<String> = Vec::new();
    let mut i: usize = 0;
    while i < list.len()
        invariant
            i <= list@.len(),
            out@.len() == i,
            forall|j: int| 0 <= j < i ==> (#[trigger] out@[j])@ == tag_text(list@[j]@),
        decreases list@.len() - i,
    {
        out.push(list[i].to_json());
        i += 1;
    }
    assert(text::texts(out@) =~= tag_models(list@).map_values(|one: TagJsonModel| tag_text(one)));
    json::array(&out)
}

// ---------------------------------------------------------------------------
// Requests
// ---------------------------------------------------------------------------

/// `PATCH /issues/{id}`. An absent field is left alone; this is what stops a
/// caller setting a Status from rewriting a title someone else is editing.
///
/// A field that is absent is not written. Without that, a patch built by a
/// client would send `"title": null` for a field it does not touch, and "names
/// only what it changes" would be true only by accident.
///
/// Unknown fields are refused rather than ignored: without that, a patch of
/// `{"statuss": "Done"}` answers `200 OK` and changes nothing, which is the one
/// failure a caller cannot see.
#[derive(Debug, Clone, PartialEq, Eq)]
pub struct PatchIssue {
    pub title: Option<String>,
    pub body: Option<String>,
    pub status: Option<String>,
    pub priority: Option<String>,
    pub tags: Option<Vec<String>>,
    /// Three states, which is why this is nested: absent leaves the Size alone,
    /// an explicit `null` clears it, a number sets it. `0` cannot mean
    /// "unsized": it is a real Size meaning no work.
    pub size: Option<Option<Size>>,
    /// Present only so it can be rejected with a pointer to the right endpoint.
    /// The raw JSON, because no type of id can tell an absent key from an
    /// explicit `null`, and silently ignoring an attempted re-parent would be a
    /// trap.
    pub parent_id: Option<String>,
}

/// A patch as it is sent, as the contracts speak of it.
#[verifier::ext_equal]
pub struct PatchIssueModel {
    pub title: Option<Seq<char>>,
    pub body: Option<Seq<char>>,
    pub status: Option<Seq<char>>,
    pub priority: Option<Seq<char>>,
    pub tags: Option<Seq<Seq<char>>>,
    pub size: Option<Option<Size>>,
    pub parent_id: Option<Seq<char>>,
}

impl View for PatchIssue {
    type V = PatchIssueModel;

    open spec fn view(&self) -> PatchIssueModel {
        PatchIssueModel {
            title: optional_text(self.title),
            body: optional_text(self.body),
            status: optional_text(self.status),
            priority: optional_text(self.priority),
            tags: match self.tags {
                Some(tags) => Some(text::texts(tags@)),
                None => None,
            },
            size: self.size,
            parent_id: optional_text(self.parent_id),
        }
    }
}

/// The patch that says nothing.
pub open spec fn says_nothing() -> PatchIssueModel {
    PatchIssueModel {
        title: None,
        body: None,
        status: None,
        priority: None,
        tags: None,
        size: None,
        parent_id: None,
    }
}

impl Default for PatchIssue {
    fn default() -> (r: PatchIssue)
        ensures
            r@ == says_nothing(),
    {
        PatchIssue {
            title: None,
            body: None,
            status: None,
            priority: None,
            tags: None,
            size: None,
            parent_id: None,
        }
    }
}

/// `POST /issues`. Only the title is required; everything else is applied in
/// the same call so automation never needs two round-trips to file a
/// fully-specified Issue.
#[derive(Debug, Clone, PartialEq, Eq)]
pub struct NewIssue {
    pub title: String,
    /// Accepted at creation, where "absent" unambiguously means "no parent":
    /// the ambiguity that keeps it out of `PATCH` does not arise here, and
    /// filing a sub-issue should not need two calls.
    pub parent_id: Option<IssueId>,
    pub rest: PatchIssue,
    /// Whatever the body said that nothing above claimed, so that it can be
    /// refused: each key, with the JSON of its value. Empty is the normal case.
    pub unknown: Vec<(String, String)>,
}

/// A new Issue as it is sent, as the contracts speak of it.
#[verifier::ext_equal]
pub struct NewIssueModel {
    pub title: Seq<char>,
    pub parent_id: Option<IssueId>,
    pub rest: PatchIssueModel,
    pub unknown: Seq<(Seq<char>, Seq<char>)>,
}

impl View for NewIssue {
    type V = NewIssueModel;

    open spec fn view(&self) -> NewIssueModel {
        NewIssueModel {
            title: self.title@,
            parent_id: self.parent_id,
            rest: self.rest@,
            unknown: crate::api::http::pairs(self.unknown@),
        }
    }
}

impl Default for NewIssue {
    fn default() -> (r: NewIssue)
        ensures
            r@ == (NewIssueModel {
                title: Seq::<char>::empty(),
                parent_id: None,
                rest: says_nothing(),
                unknown: Seq::<(Seq<char>, Seq<char>)>::empty(),
            }),
    {
        let r = NewIssue {
            title: String::new(),
            parent_id: None,
            rest: PatchIssue::default(),
            unknown: Vec::new(),
        };
        assert(r@.unknown =~= Seq::<(Seq<char>, Seq<char>)>::empty());
        r
    }
}

/// A field, where there is something to say.
pub open spec fn field_if(name: Seq<char>, value: Option<Seq<char>>) -> Seq<Seq<char>> {
    match value {
        Some(value) => seq![json::field_text(name, value)],
        None => Seq::<Seq<char>>::empty(),
    }
}

/// The JSON of an optional text.
pub open spec fn json_if(value: Option<Seq<char>>) -> Option<Seq<char>> {
    match value {
        Some(value) => Some(json::json_text(value)),
        None => None,
    }
}

/// The fields that a patch sends.
pub open spec fn patch_fields(patch: PatchIssueModel) -> Seq<Seq<char>> {
    field_if("title"@, json_if(patch.title)) + field_if("body"@, json_if(patch.body)) + field_if(
        "status"@,
        json_if(patch.status),
    ) + field_if("priority"@, json_if(patch.priority)) + field_if(
        "tags"@,
        match patch.tags {
            Some(tags) => Some(json::strings_text(tags)),
            None => None,
        },
    ) + field_if(
        "size"@,
        match patch.size {
            Some(size) => Some(json::number_or_null(size_number(size))),
            None => None,
        },
    ) + field_if("parent_id"@, patch.parent_id)
}

/// The JSON of a patch.
pub open spec fn patch_text(patch: PatchIssueModel) -> Seq<char> {
    json::object_text(patch_fields(patch))
}

/// The fields nothing claims, as they were.
pub open spec fn unknown_fields(unknown: Seq<(Seq<char>, Seq<char>)>) -> Seq<Seq<char>> {
    unknown.map_values(
        |f: (Seq<char>, Seq<char>)| json::json_text(f.0) + ":"@ + f.1,
    )
}

/// The fields that a new Issue sends.
pub open spec fn new_fields(new: NewIssueModel) -> Seq<Seq<char>> {
    seq![json::field_text("title"@, json::json_text(new.title))] + field_if(
        "parent_id"@,
        match new.parent_id {
            Some(id) => Some(text::decimal(id as int)),
            None => None,
        },
    ) + patch_fields(new.rest) + unknown_fields(new.unknown)
}

/// The JSON of a new Issue.
pub open spec fn new_text(new: NewIssueModel) -> Seq<char> {
    json::object_text(new_fields(new))
}

/// Adds a field of text, where there is one.
fn push_text(fields: &mut Vec<String>, name: &str, value: &Option<String>)
    ensures
        text::texts(final(fields)@) == text::texts(old(fields)@) + field_if(
            name@,
            json_if(optional_text(*value)),
        ),
{
    let ghost had = text::texts(fields@);
    if let Some(value) = value {
        let field = json::field(name, json::string(value.as_str()).as_str());
        let ghost one = field@;
        fields.push(field);
        assert(text::texts(fields@) =~= had + seq![one]);
    } else {
        assert(text::texts(fields@) =~= had + Seq::<Seq<char>>::empty());
    }
}

/// Adds a field of JSON, where there is one.
fn push_json(fields: &mut Vec<String>, name: &str, value: Option<String>)
    ensures
        text::texts(final(fields)@) == text::texts(old(fields)@) + field_if(
            name@,
            optional_text(value),
        ),
{
    let ghost had = text::texts(fields@);
    if let Some(value) = value {
        let field = json::field(name, value.as_str());
        let ghost one = field@;
        fields.push(field);
        assert(text::texts(fields@) =~= had + seq![one]);
    } else {
        assert(text::texts(fields@) =~= had + Seq::<Seq<char>>::empty());
    }
}

/// Putting seven lists behind another, one after the other, is putting the
/// seven together behind it.
proof fn lemma_seven<A>(
    had: Seq<A>,
    a: Seq<A>,
    b: Seq<A>,
    c: Seq<A>,
    d: Seq<A>,
    e: Seq<A>,
    f: Seq<A>,
    g: Seq<A>,
)
    ensures
        had + a + b + c + d + e + f + g == had + (a + b + c + d + e + f + g),
{
    lemma_regroup(had, a, b);
    lemma_regroup(had, a + b, c);
    lemma_regroup(had, a + b + c, d);
    lemma_regroup(had, a + b + c + d, e);
    lemma_regroup(had, a + b + c + d + e, f);
    lemma_regroup(had, a + b + c + d + e + f, g);
}

proof fn lemma_regroup<A>(a: Seq<A>, b: Seq<A>, c: Seq<A>)
    ensures
        a + b + c == a + (b + c),
{
    assert(a + b + c =~= a + (b + c));
}

impl PatchIssue {
    /// Adds the fields that the patch sends.
    fn push_fields(&self, fields: &mut Vec<String>)
        ensures
            text::texts(final(fields)@) == text::texts(old(fields)@) + patch_fields(self@),
    {
        let ghost had = text::texts(fields@);
        push_text(fields, "title", &self.title);
        push_text(fields, "body", &self.body);
        push_text(fields, "status", &self.status);
        push_text(fields, "priority", &self.priority);
        let tags = match &self.tags {
            Some(tags) => Some(json::strings(tags)),
            None => None,
        };
        push_json(fields, "tags", tags);
        let size = match self.size {
            Some(size) => Some(size_json(size)),
            None => None,
        };
        push_json(fields, "size", size);
        let parent = match &self.parent_id {
            Some(raw) => Some(raw.clone()),
            None => None,
        };
        push_json(fields, "parent_id", parent);
        proof {
            lemma_seven(
                had,
                field_if("title"@, json_if(self@.title)),
                field_if("body"@, json_if(self@.body)),
                field_if("status"@, json_if(self@.status)),
                field_if("priority"@, json_if(self@.priority)),
                field_if("tags"@, optional_text(tags)),
                field_if("size"@, optional_text(size)),
                field_if("parent_id"@, optional_text(parent)),
            );
        }
    }

    /// The patch as JSON.
    pub fn to_json(&self) -> (r: String)
        ensures
            r@ == patch_text(self@),
    {
        let mut fields: Vec<String> = Vec::new();
        self.push_fields(&mut fields);
        assert(text::texts(fields@) =~= patch_fields(self@));
        json::object(&fields)
    }
}

impl NewIssue {
    /// The new Issue as JSON.
    pub fn to_json(&self) -> (r: String)
        ensures
            r@ == new_text(self@),
    {
        let mut fields: Vec<String> = Vec::new();
        let title = json::field("title", json::string(self.title.as_str()).as_str());
        let ghost one = title@;
        fields.push(title);
        assert(text::texts(fields@) =~= seq![one]);
        let parent = match self.parent_id {
            Some(id) => Some(text::decimal_i64(id)),
            None => None,
        };
        push_json(&mut fields, "parent_id", parent);
        self.rest.push_fields(&mut fields);
        let ghost had = text::texts(fields@);
        let ghost more = unknown_fields(self@.unknown);
        let mut i: usize = 0;
        assert(had + more.take(0) =~= had);
        while i < self.unknown.len()
            invariant
                i <= self.unknown@.len(),
                more == unknown_fields(crate::api::http::pairs(self.unknown@)),
                text::texts(fields@) == had + more.take(i as int),
            decreases self.unknown@.len() - i,
        {
            let ghost before = text::texts(fields@);
            let mut field = json::string(self.unknown[i].0.as_str());
            field.push_str(":");
            field.push_str(self.unknown[i].1.as_str());
            let ghost shown = field@;
            fields.push(field);
            assert(text::texts(fields@) =~= before.push(shown));
            assert(shown == more[i as int]);
            assert(had + more.take(i + 1) =~= (had + more.take(i as int)).push(more[i as int]));
            i += 1;
        }
        assert(more.take(i as int) =~= more);
        json::object(&fields)
    }
}

// ---------------------------------------------------------------------------
// Reading a patch
// ---------------------------------------------------------------------------

/// The first of some names that cannot be a Tag's.
pub open spec fn first_unusable(names: Seq<Seq<char>>) -> Option<Seq<char>>
    decreases names.len(),
{
    if names.len() == 0 {
        None
    } else if !tag::usable_name(text::trimmed(names[0])) {
        Some(names[0])
    } else {
        first_unusable(names.skip(1))
    }
}

/// What a patch that was sent asks for, or the first thing in it that means
/// nothing: Tags first, then the Status, then the Priority.
pub open spec fn read_patch(patch: PatchIssueModel) -> Result<PatchModel, ParseErrorModel> {
    let bad_tag = match patch.tags {
        Some(names) => first_unusable(names),
        None => None,
    };
    if let Some(name) = bad_tag {
        Err(ParseErrorModel { kind: "tag"@, value: name })
    } else if patch.status matches Some(s) && Status::named(s) is None {
        Err(ParseErrorModel { kind: "status"@, value: patch.status->0 })
    } else if patch.priority matches Some(s) && Priority::named(s) is None {
        Err(ParseErrorModel { kind: "priority"@, value: patch.priority->0 })
    } else {
        Ok(
            PatchModel {
                title: patch.title,
                body: patch.body,
                status: match patch.status {
                    Some(s) => Status::named(s),
                    None => None,
                },
                priority: match patch.priority {
                    Some(s) => Priority::named(s),
                    None => None,
                },
                tags: match patch.tags {
                    Some(names) => Some(names.map_values(|name: Seq<char>| text::trimmed(name))),
                    None => None,
                },
                size: patch.size,
            },
        )
    }
}

/// Reads some names as Tags.
fn parse_tags(names: &Vec<String>) -> (r: Result<Vec<Tag>, ParseError>)
    ensures
        match r {
            Ok(tags) => first_unusable(text::texts(names@)) is None && tag::names(tags@)
                == text::texts(names@).map_values(|name: Seq<char>| text::trimmed(name)),
            Err(err) => first_unusable(text::texts(names@)) == Some(err@.value) && err@.kind
                == "tag"@,
        },
{
    let ghost all = text::texts(names@);
    let mut tags: Vec<Tag> = Vec::new();
    let mut i: usize = 0;
    assert(all.skip(0) =~= all);
    while i < names.len()
        invariant
            i <= names@.len(),
            all == text::texts(names@),
            tags@.len() == i,
            forall|j: int| 0 <= j < i ==> (#[trigger] tags@[j])@ == text::trimmed(all[j]),
            first_unusable(all) == first_unusable(all.skip(i as int)),
        decreases names@.len() - i,
    {
        assert(all.skip(i as int)[0] == names@[i as int]@);
        match Tag::from_str(names[i].as_str()) {
            Ok(tag) => {
                tags.push(tag);
            },
            Err(err) => {
                return Err(err);
            },
        }
        assert(all.skip(i as int).skip(1) =~= all.skip(i + 1));
        i += 1;
    }
    assert(tag::names(tags@) =~= all.map_values(|name: Seq<char>| text::trimmed(name)));
    Ok(tags)
}

impl PatchIssue {
    /// Translates to a domain patch, rejecting unknown enum values and unusable
    /// Tag names rather than silently dropping them.
    pub fn into_patch(self) -> (r: Result<IssuePatch, ParseError>)
        ensures
            match r {
                Ok(patch) => read_patch(self@) == Ok::<PatchModel, ParseErrorModel>(patch@),
                Err(err) => read_patch(self@) == Err::<PatchModel, ParseErrorModel>(err@),
            },
    {
        let tags = match &self.tags {
            Some(names) => match parse_tags(names) {
                Ok(tags) => Some(tags),
                Err(err) => {
                    return Err(err);
                },
            },
            None => None,
        };
        let status = match &self.status {
            Some(s) => match Status::from_str(s.as_str()) {
                Ok(status) => Some(status),
                Err(err) => {
                    return Err(err);
                },
            },
            None => None,
        };
        let priority = match &self.priority {
            Some(s) => match Priority::from_str(s.as_str()) {
                Ok(priority) => Some(priority),
                Err(err) => {
                    return Err(err);
                },
            },
            None => None,
        };
        Ok(
            IssuePatch {
                size: self.size,
                title: self.title,
                body: self.body,
                status,
                priority,
                tags,
            },
        )
    }
}

} // verus!
