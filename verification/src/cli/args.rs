//! The words of a command line in, a [`Command`] out. No I/O.
//!
//! Enum values are parsed here rather than passed through as text: the command
//! line and the API share one reader, so validating early cannot disagree with
//! the server, and a typo becomes a usage error instead of a round-trip.

use std::str::FromStr;

use vstd::prelude::*;

use crate::api::http::optional_text;
use crate::cli::words;
use crate::cli::words::Words;
use crate::cli::Failure;
use crate::domain::kinds::{IssueId, ParseErrorModel, Priority, Size, Status};
use crate::domain::narrowing::ParentFilter;
use crate::domain::tag;
use crate::domain::tag::Tag;
use crate::text;

verus! {

/// When to colour output. `auto` means "only when stdout is a terminal".
#[derive(Debug, Clone, Copy, PartialEq, Eq, Structural)]
pub enum Colour {
    Auto,
    Always,
    Never,
}

/// Where a body comes from. Reading is deferred so parsing stays pure.
#[derive(Debug, Clone, PartialEq, Eq)]
pub enum Body {
    Text(String),
    /// `--body -`, the form that lets the command compose with others.
    Stdin,
}

/// Where a body comes from, as the contracts speak of it.
#[verifier::ext_equal]
pub enum BodyModel {
    Text(Seq<char>),
    Stdin,
}

impl View for Body {
    type V = BodyModel;

    open spec fn view(&self) -> BodyModel {
        match *self {
            Body::Text(text) => BodyModel::Text(text@),
            Body::Stdin => BodyModel::Stdin,
        }
    }
}

/// What a listing is narrowed by.
#[derive(Debug, PartialEq, Eq)]
pub struct Filters {
    pub status: Option<Status>,
    pub tag: Option<Tag>,
    pub parent: Option<ParentFilter>,
    pub search: Option<String>,
}

/// What a listing is narrowed by, as the contracts speak of it.
#[verifier::ext_equal]
pub struct FiltersModel {
    pub status: Option<Status>,
    pub tag: Option<Seq<char>>,
    pub parent: Option<ParentFilter>,
    pub search: Option<Seq<char>>,
}

/// The name of an optional Tag.
pub open spec fn optional_name(tag: Option<Tag>) -> Option<Seq<char>> {
    match tag {
        Some(tag) => Some(tag@),
        None => None,
    }
}

/// The model of an optional body.
pub open spec fn optional_body(body: Option<Body>) -> Option<BodyModel> {
    match body {
        Some(body) => Some(body@),
        None => None,
    }
}

impl View for Filters {
    type V = FiltersModel;

    open spec fn view(&self) -> FiltersModel {
        FiltersModel {
            status: self.status,
            tag: optional_name(self.tag),
            parent: self.parent,
            search: optional_text(self.search),
        }
    }
}

impl Default for Filters {
    fn default() -> (r: Filters)
        ensures
            r@ == (FiltersModel { status: None, tag: None, parent: None, search: None }),
    {
        Filters { status: None, tag: None, parent: None, search: None }
    }
}

/// A new Issue, as the command line gives it.
#[derive(Debug, PartialEq, Eq)]
pub struct NewIssue {
    pub title: String,
    pub body: Option<Body>,
    pub status: Option<Status>,
    pub priority: Option<Priority>,
    /// Repeatable. Safe at creation only, where there is nothing to clobber:
    /// see the note on [`Changes`].
    pub tags: Vec<Tag>,
    pub parent: Option<IssueId>,
    /// A number only: there is no Size to clear yet.
    pub size: Option<Size>,
}

/// A new Issue, as the contracts speak of it.
#[verifier::ext_equal]
pub struct NewModel {
    pub title: Seq<char>,
    pub body: Option<BodyModel>,
    pub status: Option<Status>,
    pub priority: Option<Priority>,
    pub tags: Seq<Seq<char>>,
    pub parent: Option<IssueId>,
    pub size: Option<Size>,
}

impl View for NewIssue {
    type V = NewModel;

    open spec fn view(&self) -> NewModel {
        NewModel {
            title: self.title@,
            body: optional_body(self.body),
            status: self.status,
            priority: self.priority,
            tags: tag::names(self.tags@),
            parent: self.parent,
            size: self.size,
        }
    }
}

/// The fields `issue set` may change.
///
/// Deliberately without Tags. A patch of Tags replaces the whole set, so
/// changing one Tag through it means read-modify-write; the API has
/// `PUT`/`DELETE /issues/{id}/tags/{name}` precisely to avoid that, and
/// `issue tag add|rm` is the only way in.
#[derive(Debug, PartialEq, Eq)]
pub struct Changes {
    pub title: Option<String>,
    pub body: Option<Body>,
    pub status: Option<Status>,
    pub priority: Option<Priority>,
    /// `--size none` clears it.
    pub size: Option<Option<Size>>,
}

/// The fields to change, as the contracts speak of them.
#[verifier::ext_equal]
pub struct ChangesModel {
    pub title: Option<Seq<char>>,
    pub body: Option<BodyModel>,
    pub status: Option<Status>,
    pub priority: Option<Priority>,
    pub size: Option<Option<Size>>,
}

impl View for Changes {
    type V = ChangesModel;

    open spec fn view(&self) -> ChangesModel {
        ChangesModel {
            title: optional_text(self.title),
            body: optional_body(self.body),
            status: self.status,
            priority: self.priority,
            size: self.size,
        }
    }
}

/// Nothing to change.
pub open spec fn nothing_to_set() -> ChangesModel {
    ChangesModel { title: None, body: None, status: None, priority: None, size: None }
}

impl Default for Changes {
    fn default() -> (r: Changes)
        ensures
            r@ == nothing_to_set(),
    {
        Changes { title: None, body: None, status: None, priority: None, size: None }
    }
}

impl Changes {
    /// Whether there is nothing to change.
    pub fn is_empty(&self) -> (r: bool)
        ensures
            r == (self@ == nothing_to_set()),
    {
        self.title.is_none() && self.body.is_none() && self.status.is_none()
            && self.priority.is_none() && self.size.is_none()
    }
}

/// What to do.
#[derive(Debug, PartialEq, Eq)]
pub enum Command {
    Help,
    Version,
    List(Filters),
    Show(IssueId),
    New(Box<NewIssue>),
    /// `issue set`.
    Change(IssueId, Box<Changes>),
    Remove { id: IssueId, force: bool },
    Tags,
    Tag { id: IssueId, names: Vec<Tag>, add: bool },
    Sub { id: IssueId, children: Vec<IssueId>, add: bool },
}

/// What to do, as the contracts speak of it.
#[verifier::ext_equal]
pub enum CommandModel {
    Help,
    Version,
    List(FiltersModel),
    Show(IssueId),
    New(NewModel),
    Change(IssueId, ChangesModel),
    Remove { id: IssueId, force: bool },
    Tags,
    Tag { id: IssueId, names: Seq<Seq<char>>, add: bool },
    Sub { id: IssueId, children: Seq<IssueId>, add: bool },
}

impl View for Command {
    type V = CommandModel;

    open spec fn view(&self) -> CommandModel {
        match *self {
            Command::Help => CommandModel::Help,
            Command::Version => CommandModel::Version,
            Command::List(filters) => CommandModel::List(filters@),
            Command::Show(id) => CommandModel::Show(id),
            Command::New(new) => CommandModel::New((*new)@),
            Command::Change(id, changes) => CommandModel::Change(id, (*changes)@),
            Command::Remove { id, force } => CommandModel::Remove { id, force },
            Command::Tags => CommandModel::Tags,
            Command::Tag { id, names, add } => CommandModel::Tag {
                id,
                names: tag::names(names@),
                add,
            },
            Command::Sub { id, children, add } => CommandModel::Sub { id, children: children@, add },
        }
    }
}

/// A whole command line, read.
#[derive(Debug, PartialEq, Eq)]
pub struct Invocation {
    pub json: bool,
    pub colour: Colour,
    pub command: Command,
}

/// A whole command line, as the contracts speak of it.
#[verifier::ext_equal]
pub struct InvocationModel {
    pub json: bool,
    pub colour: Colour,
    pub command: CommandModel,
}

impl View for Invocation {
    type V = InvocationModel;

    open spec fn view(&self) -> InvocationModel {
        InvocationModel { json: self.json, colour: self.colour, command: self.command@ }
    }
}

// ---------------------------------------------------------------------------
// Colour alone
// ---------------------------------------------------------------------------

/// The colour choice a word makes; one that means nothing leaves it open.
pub open spec fn colour_named(word: Seq<char>) -> Colour {
    if word == "always"@ {
        Colour::Always
    } else if word == "never"@ {
        Colour::Never
    } else {
        Colour::Auto
    }
}

/// The colour choice the first `--color` of a command line makes.
pub open spec fn colour_in(words: Seq<Seq<char>>) -> Colour
    decreases words.len(),
{
    if words.len() == 0 {
        Colour::Auto
    } else if text::starts_with(words[0], "--color="@) {
        colour_named(words[0].skip("--color="@.len() as int))
    } else if words[0] == "--color"@ {
        if words.len() > 1 {
            colour_named(words[1])
        } else {
            Colour::Auto
        }
    } else {
        colour_in(words.skip(1))
    }
}

fn colour_word(word: &str) -> (r: Colour)
    ensures
        r == colour_named(word@),
{
    if text::same(word, "always") {
        Colour::Always
    } else if text::same(word, "never") {
        Colour::Never
    } else {
        Colour::Auto
    }
}

/// Reads `--color` alone, without validating anything else.
///
/// The colour choice is needed before parsing can fail, so that a usage error
/// is written to a stream configured the way it was asked for. An unusable
/// value falls back to `auto` and is reported by [`parse`].
pub fn colour_of(argv: &Vec<String>) -> (r: Colour)
    ensures
        r == colour_in(text::texts(argv@)),
{
    let ghost all = text::texts(argv@);
    let mut i: usize = 0;
    assert(all.skip(0) =~= all);
    while i < argv.len()
        invariant
            i <= argv@.len(),
            all == text::texts(argv@),
            colour_in(all) == colour_in(all.skip(i as int)),
        decreases argv@.len() - i,
    {
        let word = argv[i].as_str();
        assert(all.skip(i as int)[0] == word@);
        if let Some(value) = text::strip_prefix(word, "--color=") {
            return colour_word(value.as_str());
        }
        if text::same(word, "--color") {
            if i + 1 < argv.len() {
                assert(all.skip(i as int)[1] == argv@[i + 1]@);
                return colour_word(argv[i + 1].as_str());
            }
            return Colour::Auto;
        }
        assert(all.skip(i as int).skip(1) =~= all.skip(i + 1));
        i += 1;
    }
    Colour::Auto
}

// ---------------------------------------------------------------------------
// Pieces
// ---------------------------------------------------------------------------

/// What an option is given, read as something: nothing where it does not stand.
pub open spec fn read_if<T>(
    given: Result<Option<Seq<char>>, Seq<char>>,
    kind: Seq<char>,
    read: spec_fn(Seq<char>) -> Option<T>,
) -> Result<Option<T>, Seq<char>> {
    match given {
        Err(why) => Err(why),
        Ok(None) => Ok(None),
        Ok(Some(raw)) => match read(raw) {
            Some(value) => Ok(Some(value)),
            None => Err(ParseErrorModel { kind, value: raw }.sentence()),
        },
    }
}

/// The name of the Tag that a text names.
pub open spec fn tag_named(raw: Seq<char>) -> Option<Seq<char>> {
    if tag::usable_name(text::trimmed(raw)) {
        Some(text::trimmed(raw))
    } else {
        None
    }
}

/// The id a text spells, or what is said of it.
pub open spec fn id_of(raw: Seq<char>) -> Result<IssueId, Seq<char>> {
    match text::integer(raw) {
        Some(id) => Ok(id as i64),
        None => Err("not an issue id: "@ + raw),
    }
}

/// The Size a text spells, or what is said of it.
pub open spec fn size_of(raw: Seq<char>, hint: Seq<char>) -> Result<Size, Seq<char>> {
    match text::number(raw, 255) {
        Some(n) => Ok(n as u8),
        None => Err("not a size: "@ + raw + hint),
    }
}

/// The status option.
pub open spec fn status_in(words: Seq<Seq<char>>) -> Result<Option<Status>, Seq<char>> {
    read_if(words::value_of(words, "--status"@), "status"@, |raw: Seq<char>| Status::named(raw))
}

/// The priority option.
pub open spec fn priority_in(words: Seq<Seq<char>>) -> Result<Option<Priority>, Seq<char>> {
    read_if(
        words::value_of(words, "--priority"@),
        "priority"@,
        |raw: Seq<char>| Priority::named(raw),
    )
}

/// The body option.
pub open spec fn body_in(words: Seq<Seq<char>>) -> Result<Option<BodyModel>, Seq<char>> {
    match words::value_of(words, "--body"@) {
        Err(why) => Err(why),
        Ok(None) => Ok(None),
        Ok(Some(raw)) => Ok(
            Some(
                if raw == "-"@ {
                    BodyModel::Stdin
                } else {
                    BodyModel::Text(raw)
                },
            ),
        ),
    }
}

/// Whether a word that is left over is an option nothing asked for.
pub open spec fn is_stray(word: Seq<char>) -> bool {
    text::starts_with(word, "-"@) && word != "-"@
}

/// The first word left over that is an option nothing asked for.
pub open spec fn first_stray(words: Seq<Seq<char>>) -> Option<Seq<char>>
    decreases words.len(),
{
    if words.len() == 0 {
        None
    } else if is_stray(words[0]) {
        Some(words[0])
    } else {
        first_stray(words.skip(1))
    }
}

/// The positional arguments, or what is wrong with them: exactly so many, or at
/// least so many where more are allowed.
pub open spec fn positionals(
    words: Seq<Seq<char>>,
    wanted: int,
    variadic: bool,
    verb: Seq<char>,
) -> Result<Seq<Seq<char>>, Seq<char>> {
    match first_stray(words) {
        Some(word) => Err("unknown option for "@ + verb + ": "@ + word),
        None => if words.len() < wanted || (!variadic && words.len() > wanted) {
            Err(
                verb + " wants "@ + text::decimal(wanted) + " argument(s), got "@ + text::decimal(
                    words.len() as int,
                ) + ". Try `issue --help`"@,
            )
        } else {
            Ok(words)
        },
    }
}

/// The one id a command takes.
pub open spec fn one_id_in(words: Seq<Seq<char>>, verb: Seq<char>) -> Result<IssueId, Seq<char>> {
    match positionals(words, 1, false, verb) {
        Err(why) => Err(why),
        Ok(free) => id_of(free[0]),
    }
}

/// The ids that some words spell, or what is said of the first that does not.
pub open spec fn ids_of(words: Seq<Seq<char>>) -> Result<Seq<IssueId>, Seq<char>>
    decreases words.len(),
{
    if words.len() == 0 {
        Ok(Seq::<IssueId>::empty())
    } else {
        match id_of(words[0]) {
            Err(why) => Err(why),
            Ok(id) => match ids_of(words.skip(1)) {
                Err(why) => Err(why),
                Ok(more) => Ok(seq![id] + more),
            },
        }
    }
}

/// The Tags that some words name, or what is said of the first that cannot.
pub open spec fn tags_of(words: Seq<Seq<char>>) -> Result<Seq<Seq<char>>, Seq<char>>
    decreases words.len(),
{
    if words.len() == 0 {
        Ok(Seq::<Seq<char>>::empty())
    } else {
        match tag_named(words[0]) {
            None => Err(ParseErrorModel { kind: "tag"@, value: words[0] }.sentence()),
            Some(name) => match tags_of(words.skip(1)) {
                Err(why) => Err(why),
                Ok(more) => Ok(seq![name] + more),
            },
        }
    }
}

/// Takes what an option is given.
fn value(args: &mut Words, key: &'static str) -> (r: Result<Option<String>, Failure>)
    requires
        words::is_key(key@),
    ensures
        match r {
            Ok(given) => words::value_of(old(args)@, key@) == Ok::<Option<Seq<char>>, Seq<char>>(
                optional_text(given),
            ),
            Err(Failure::Usage(said)) => words::value_of(old(args)@, key@) == Err::<
                Option<Seq<char>>,
                Seq<char>,
            >(said@),
            Err(_) => false,
        },
        final(args)@ == words::without_value(old(args)@, key@),
{
    match args.take_value(key) {
        Ok(given) => Ok(given),
        Err(why) => Err(Failure::Usage(why)),
    }
}

/// Takes the status option.
fn status(args: &mut Words) -> (r: Result<Option<Status>, Failure>)
    ensures
        match r {
            Ok(status) => status_in(old(args)@) == Ok::<Option<Status>, Seq<char>>(status),
            Err(Failure::Usage(said)) => status_in(old(args)@) == Err::<Option<Status>, Seq<char>>(
                said@,
            ),
            Err(_) => false,
        },
        final(args)@ == words::without_value(old(args)@, "--status"@),
{
    proof {
        lemma_keys();
    }
    match value(args, "--status") {
        Err(failure) => Err(failure),
        Ok(None) => Ok(None),
        Ok(Some(raw)) => match Status::from_str(raw.as_str()) {
            Ok(status) => Ok(Some(status)),
            Err(err) => Err(Failure::Usage(err.to_string())),
        },
    }
}

/// Takes the priority option.
fn priority(args: &mut Words) -> (r: Result<Option<Priority>, Failure>)
    ensures
        match r {
            Ok(priority) => priority_in(old(args)@) == Ok::<Option<Priority>, Seq<char>>(priority),
            Err(Failure::Usage(said)) => priority_in(old(args)@) == Err::<
                Option<Priority>,
                Seq<char>,
            >(said@),
            Err(_) => false,
        },
        final(args)@ == words::without_value(old(args)@, "--priority"@),
{
    proof {
        lemma_keys();
    }
    match value(args, "--priority") {
        Err(failure) => Err(failure),
        Ok(None) => Ok(None),
        Ok(Some(raw)) => match Priority::from_str(raw.as_str()) {
            Ok(priority) => Ok(Some(priority)),
            Err(err) => Err(Failure::Usage(err.to_string())),
        },
    }
}

/// Takes the body option.
fn body(args: &mut Words) -> (r: Result<Option<Body>, Failure>)
    ensures
        match r {
            Ok(body) => body_in(old(args)@) == Ok::<Option<BodyModel>, Seq<char>>(
                optional_body(body),
            ),
            Err(Failure::Usage(said)) => body_in(old(args)@) == Err::<Option<BodyModel>, Seq<char>>(
                said@,
            ),
            Err(_) => false,
        },
        final(args)@ == words::without_value(old(args)@, "--body"@),
{
    proof {
        lemma_keys();
    }
    match value(args, "--body") {
        Err(failure) => Err(failure),
        Ok(None) => Ok(None),
        Ok(Some(raw)) => if text::same(raw.as_str(), "-") {
            Ok(Some(Body::Stdin))
        } else {
            Ok(Some(Body::Text(raw)))
        },
    }
}

/// The options are ones the parser takes.
proof fn lemma_keys()
    ensures
        words::is_key("--json"@),
        words::is_key("--color"@),
        words::is_key("-h"@),
        words::is_key("--help"@),
        words::is_key("-V"@),
        words::is_key("--version"@),
        words::is_key("-f"@),
        words::is_key("--force"@),
        words::is_key("--status"@),
        words::is_key("--priority"@),
        words::is_key("--body"@),
        words::is_key("--tag"@),
        words::is_key("--search"@),
        words::is_key("--parent"@),
        words::is_key("--title"@),
        words::is_key("--size"@),
{
    reveal(words::is_key);
    reveal_strlit("--");
    reveal_strlit("-");
    reveal_strlit("--json");
    reveal_strlit("--color");
    reveal_strlit("-h");
    reveal_strlit("--help");
    reveal_strlit("-V");
    reveal_strlit("--version");
    reveal_strlit("-f");
    reveal_strlit("--force");
    reveal_strlit("--status");
    reveal_strlit("--priority");
    reveal_strlit("--body");
    reveal_strlit("--tag");
    reveal_strlit("--search");
    reveal_strlit("--parent");
    reveal_strlit("--title");
    reveal_strlit("--size");
    assert("--json"@.take(2) =~= "--"@);
    assert("--color"@.take(2) =~= "--"@);
    assert("-h"@.take(1) =~= "-"@);
    assert("--help"@.take(2) =~= "--"@);
    assert("-V"@.take(1) =~= "-"@);
    assert("--version"@.take(2) =~= "--"@);
    assert("-f"@.take(1) =~= "-"@);
    assert("--force"@.take(2) =~= "--"@);
    assert("--status"@.take(2) =~= "--"@);
    assert("--priority"@.take(2) =~= "--"@);
    assert("--body"@.take(2) =~= "--"@);
    assert("--tag"@.take(2) =~= "--"@);
    assert("--search"@.take(2) =~= "--"@);
    assert("--parent"@.take(2) =~= "--"@);
    assert("--title"@.take(2) =~= "--"@);
    assert("--size"@.take(2) =~= "--"@);
}

/// Reads an id.
fn id_from(raw: &str) -> (r: Result<IssueId, Failure>)
    ensures
        match r {
            Ok(read) => id_of(raw@) == Ok::<IssueId, Seq<char>>(read),
            Err(Failure::Usage(said)) => id_of(raw@) == Err::<IssueId, Seq<char>>(said@),
            Err(_) => false,
        },
{
    match text::parse_integer(raw) {
        Some(id) => Ok(id),
        None => {
            let mut message = "not an issue id: ".to_owned();
            message.push_str(raw);
            Err(Failure::Usage(message))
        },
    }
}

/// Reads a Size.
fn size_from(raw: &str, hint: &str) -> (r: Result<Size, Failure>)
    ensures
        match r {
            Ok(read) => size_of(raw@, hint@) == Ok::<Size, Seq<char>>(read),
            Err(Failure::Usage(said)) => size_of(raw@, hint@) == Err::<Size, Seq<char>>(said@),
            Err(_) => false,
        },
{
    match text::parse_number(raw, 255) {
        Some(n) => Ok(n as u8),
        None => {
            let mut message = "not a size: ".to_owned();
            message.push_str(raw);
            message.push_str(hint);
            Err(Failure::Usage(message))
        },
    }
}

/// Reads a Tag.
fn tag_from(raw: &str) -> (r: Result<Tag, Failure>)
    ensures
        match r {
            Ok(tag) => tag_named(raw@) == Some(tag@),
            Err(Failure::Usage(said)) => tag_named(raw@) is None && said@ == (ParseErrorModel {
                kind: "tag"@,
                value: raw@,
            }).sentence(),
            Err(_) => false,
        },
{
    match Tag::from_str(raw) {
        Ok(tag) => Ok(tag),
        Err(err) => Err(Failure::Usage(err.to_string())),
    }
}

/// Reads Tags, from a given place on.
fn tags_from(raw: &Vec<String>, from: usize) -> (r: Result<Vec<Tag>, Failure>)
    requires
        from <= raw@.len(),
    ensures
        match r {
            Ok(read) => tags_of(text::texts(raw@).skip(from as int))
                == Ok::<Seq<Seq<char>>, Seq<char>>(tag::names(read@)),
            Err(Failure::Usage(said)) => tags_of(text::texts(raw@).skip(from as int))
                == Err::<Seq<Seq<char>>, Seq<char>>(said@),
            Err(_) => false,
        },
{
    let ghost all = text::texts(raw@).skip(from as int);
    let mut tags: Vec<Tag> = Vec::new();
    let mut i: usize = from;
    proof {
        let none = tag::names(tags@);
        assert(none =~= Seq::<Seq<char>>::empty());
        assert(all.skip(0) =~= all);
        match tags_of(all) {
            Ok(more) => {
                assert(none + more =~= more);
            },
            Err(_) => {},
        }
    }
    while i < raw.len()
        invariant
            from <= i <= raw@.len(),
            all == text::texts(raw@).skip(from as int),
            match tags_of(all.skip(i - from)) {
                Ok(more) => tags_of(all) == Ok::<Seq<Seq<char>>, Seq<char>>(
                    tag::names(tags@) + more,
                ),
                Err(why) => tags_of(all) == Err::<Seq<Seq<char>>, Seq<char>>(why),
            },
        decreases raw@.len() - i,
    {
        let ghost rest = all.skip(i - from);
        let ghost had = tag::names(tags@);
        assert(rest[0] == raw@[i as int]@);
        assert(rest.skip(1) =~= all.skip(i + 1 - from));
        match tag_from(raw[i].as_str()) {
            Ok(tag) => {
                let ghost name = tag@;
                tags.push(tag);
                proof {
                    assert(tag::names(tags@) =~= had.push(name));
                    match tags_of(rest.skip(1)) {
                        Ok(more) => {
                            assert(had + (seq![name] + more) =~= had.push(name) + more);
                        },
                        Err(_) => {},
                    }
                }
            },
            Err(failure) => {
                return Err(failure);
            },
        }
        i += 1;
    }
    assert(all.skip(i - from) =~= Seq::<Seq<char>>::empty());
    assert(tag::names(tags@) + Seq::<Seq<char>>::empty() =~= tag::names(tags@));
    Ok(tags)
}

/// Reads ids, from a given place on.
fn ids_from(raw: &Vec<String>, from: usize) -> (r: Result<Vec<IssueId>, Failure>)
    requires
        from <= raw@.len(),
    ensures
        match r {
            Ok(read) => ids_of(text::texts(raw@).skip(from as int))
                == Ok::<Seq<IssueId>, Seq<char>>(read@),
            Err(Failure::Usage(said)) => ids_of(text::texts(raw@).skip(from as int))
                == Err::<Seq<IssueId>, Seq<char>>(said@),
            Err(_) => false,
        },
{
    let ghost all = text::texts(raw@).skip(from as int);
    let mut ids: Vec<IssueId> = Vec::new();
    let mut i: usize = from;
    proof {
        assert(all.skip(0) =~= all);
        match ids_of(all) {
            Ok(more) => {
                assert(ids@ + more =~= more);
            },
            Err(_) => {},
        }
    }
    while i < raw.len()
        invariant
            from <= i <= raw@.len(),
            all == text::texts(raw@).skip(from as int),
            match ids_of(all.skip(i - from)) {
                Ok(more) => ids_of(all) == Ok::<Seq<IssueId>, Seq<char>>(ids@ + more),
                Err(why) => ids_of(all) == Err::<Seq<IssueId>, Seq<char>>(why),
            },
        decreases raw@.len() - i,
    {
        let ghost rest = all.skip(i - from);
        let ghost had = ids@;
        assert(rest[0] == raw@[i as int]@);
        assert(rest.skip(1) =~= all.skip(i + 1 - from));
        match id_from(raw[i].as_str()) {
            Ok(id) => {
                ids.push(id);
                proof {
                    match ids_of(rest.skip(1)) {
                        Ok(more) => {
                            assert(had + (seq![id] + more) =~= had.push(id) + more);
                        },
                        Err(_) => {},
                    }
                }
            },
            Err(failure) => {
                return Err(failure);
            },
        }
        i += 1;
    }
    assert(all.skip(i - from) =~= Seq::<Seq<char>>::empty());
    assert(ids@ + Seq::<IssueId>::empty() =~= ids@);
    Ok(ids)
}

/// Collects the positional arguments, insisting on so many.
///
/// This is also where unrecognised flags are caught. `pico-args` leaves
/// anything it was never asked for in the remainder and is otherwise happy, so
/// without this `issue set 7 --statuss Done` would report success and change
/// nothing.
fn rest(args: Words, wanted: usize, variadic: bool, verb: &str) -> (r: Result<Vec<String>, Failure>)
    ensures
        match r {
            Ok(read) => positionals(args@, wanted as int, variadic, verb@)
                == Ok::<Seq<Seq<char>>, Seq<char>>(text::texts(read@)),
            Err(Failure::Usage(said)) => positionals(args@, wanted as int, variadic, verb@)
                == Err::<Seq<Seq<char>>, Seq<char>>(said@),
            Err(_) => false,
        },
{
    let free = args.finish();
    let ghost all = text::texts(free@);
    let mut i: usize = 0;
    assert(all.skip(0) =~= all);
    while i < free.len()
        invariant
            i <= free@.len(),
            all == text::texts(free@),
            all == args@,
            first_stray(all) == first_stray(all.skip(i as int)),
        decreases free@.len() - i,
    {
        let word = free[i].as_str();
        assert(all.skip(i as int)[0] == word@);
        if text::strip_prefix(word, "-").is_some() && !text::same(word, "-") {
            let mut message = "unknown option for ".to_owned();
            message.push_str(verb);
            message.push_str(": ");
            message.push_str(word);
            return Err(Failure::Usage(message));
        }
        assert(all.skip(i as int).skip(1) =~= all.skip(i + 1));
        i += 1;
    }
    if free.len() < wanted || (!variadic && free.len() > wanted) {
        let mut message = verb.to_owned();
        message.push_str(" wants ");
        message.push_str(text::decimal_u64(wanted as u64).as_str());
        message.push_str(" argument(s), got ");
        message.push_str(text::decimal_u64(free.len() as u64).as_str());
        message.push_str(". Try `issue --help`");
        return Err(Failure::Usage(message));
    }
    Ok(free)
}

/// Takes the one id a command takes.
fn one_id(args: Words, verb: &str) -> (r: Result<IssueId, Failure>)
    ensures
        match r {
            Ok(read) => one_id_in(args@, verb@) == Ok::<IssueId, Seq<char>>(read),
            Err(Failure::Usage(said)) => one_id_in(args@, verb@)
                == Err::<IssueId, Seq<char>>(said@),
            Err(_) => false,
        },
{
    match rest(args, 1, false, verb) {
        Err(failure) => Err(failure),
        Ok(free) => {
            assert(text::texts(free@)[0] == free@[0]@);
            id_from(free[0].as_str())
        },
    }
}

// ---------------------------------------------------------------------------
// Commands, in words
// ---------------------------------------------------------------------------

/// `issue list`.
pub open spec fn list_command(words: Seq<Seq<char>>) -> Result<CommandModel, Seq<char>> {
    let past_status = words::without_value(words, "--status"@);
    let past_tag = words::without_value(past_status, "--tag"@);
    let past_search = words::without_value(past_tag, "--search"@);
    let past_parent = words::without_value(past_search, "--parent"@);
    let name = read_if(
        words::value_of(past_status, "--tag"@),
        "tag"@,
        |raw: Seq<char>| tag_named(raw),
    );
    let search = words::value_of(past_tag, "--search"@);
    let parent = read_if(
        words::value_of(past_search, "--parent"@),
        "parent"@,
        |raw: Seq<char>| ParentFilter::named(raw),
    );
    match (status_in(words), name, search, parent, positionals(past_parent, 0, false, "list"@)) {
        (Err(why), _, _, _, _) => Err(why),
        (_, Err(why), _, _, _) => Err(why),
        (_, _, Err(why), _, _) => Err(why),
        (_, _, _, Err(why), _) => Err(why),
        (_, _, _, _, Err(why)) => Err(why),
        (Ok(status), Ok(tag), Ok(search), Ok(parent), Ok(_)) => Ok(
            CommandModel::List(FiltersModel { status, tag, parent, search }),
        ),
    }
}

/// What is said of a Size that is none, where one can be cleared.
pub open spec fn size_or_none_hint() -> Seq<char> {
    ". Give a number from 0 to 255, or none"@
}

/// What is said of a Size that is none, where there is none to clear.
pub open spec fn size_hint() -> Seq<char> {
    ". Give a number from 0 to 255"@
}

/// The size option of a new Issue.
pub open spec fn new_size_in(words: Seq<Seq<char>>) -> Result<Option<Size>, Seq<char>> {
    match words::value_of(words, "--size"@) {
        Err(why) => Err(why),
        Ok(None) => Ok(None),
        Ok(Some(raw)) => match size_of(raw, size_hint()) {
            Err(why) => Err(why),
            Ok(size) => Ok(Some(size)),
        },
    }
}

/// The size option of a change.
pub open spec fn set_size_in(words: Seq<Seq<char>>) -> Result<Option<Option<Size>>, Seq<char>> {
    match words::value_of(words, "--size"@) {
        Err(why) => Err(why),
        Ok(None) => Ok(None),
        Ok(Some(raw)) => if raw == "none"@ {
            Ok(Some(None))
        } else {
            match size_of(raw, size_or_none_hint()) {
                Err(why) => Err(why),
                Ok(size) => Ok(Some(Some(size))),
            }
        },
    }
}

/// The Tags of a new Issue.
pub open spec fn new_tags_in(words: Seq<Seq<char>>) -> Result<Seq<Seq<char>>, Seq<char>> {
    match words::values_of(words, "--tag"@) {
        Err(why) => Err(why),
        Ok(raw) => tags_of(raw),
    }
}

/// The parent of a new Issue.
pub open spec fn new_parent_in(words: Seq<Seq<char>>) -> Result<Option<IssueId>, Seq<char>> {
    match words::value_of(words, "--parent"@) {
        Err(why) => Err(why),
        Ok(None) => Ok(None),
        Ok(Some(raw)) => match id_of(raw) {
            Err(why) => Err(why),
            Ok(id) => Ok(Some(id)),
        },
    }
}

/// `issue new`.
pub open spec fn new_command(words: Seq<Seq<char>>) -> Result<CommandModel, Seq<char>> {
    let past_body = words::without_value(words, "--body"@);
    let past_status = words::without_value(past_body, "--status"@);
    let past_priority = words::without_value(past_status, "--priority"@);
    let past_tags = words::without_values(past_priority, "--tag"@);
    let past_parent = words::without_value(past_tags, "--parent"@);
    let past_size = words::without_value(past_parent, "--size"@);
    match body_in(words) {
        Err(why) => Err(why),
        Ok(body) => match status_in(past_body) {
            Err(why) => Err(why),
            Ok(status) => match priority_in(past_status) {
                Err(why) => Err(why),
                Ok(priority) => match new_tags_in(past_priority) {
                    Err(why) => Err(why),
                    Ok(tags) => match new_parent_in(past_tags) {
                        Err(why) => Err(why),
                        Ok(parent) => match new_size_in(past_parent) {
                            Err(why) => Err(why),
                            Ok(size) => match positionals(past_size, 1, false, "new"@) {
                                Err(why) => Err(why),
                                Ok(free) => if text::trimmed(free[0]).len() == 0 {
                                    Err("a title is required: issue new \"Title\""@)
                                } else {
                                    Ok(
                                        CommandModel::New(
                                            NewModel {
                                                title: free[0],
                                                body,
                                                status,
                                                priority,
                                                tags,
                                                parent,
                                                size,
                                            },
                                        ),
                                    )
                                },
                            },
                        },
                    },
                },
            },
        },
    }
}

/// `issue set`.
pub open spec fn set_command(words: Seq<Seq<char>>) -> Result<CommandModel, Seq<char>> {
    let past_title = words::without_value(words, "--title"@);
    let past_body = words::without_value(past_title, "--body"@);
    let past_status = words::without_value(past_body, "--status"@);
    let past_priority = words::without_value(past_status, "--priority"@);
    let past_size = words::without_value(past_priority, "--size"@);
    match words::value_of(words, "--title"@) {
        Err(why) => Err(why),
        Ok(title) => match body_in(past_title) {
            Err(why) => Err(why),
            Ok(body) => match status_in(past_body) {
                Err(why) => Err(why),
                Ok(status) => match priority_in(past_status) {
                    Err(why) => Err(why),
                    Ok(priority) => match set_size_in(past_priority) {
                        Err(why) => Err(why),
                        Ok(size) => match one_id_in(past_size, "set"@) {
                            Err(why) => Err(why),
                            Ok(id) => {
                                let changes = ChangesModel { title, body, status, priority, size };
                                if changes == nothing_to_set() {
                                    Err(
                                        "nothing to set. Give at least one of --title, --body, --status, --priority, --size"@,
                                    )
                                } else {
                                    Ok(CommandModel::Change(id, changes))
                                }
                            },
                        },
                    },
                },
            },
        },
    }
}

/// Whether either of two flags is there: the short one is looked for first.
pub open spec fn has_either(words: Seq<Seq<char>>, short: Seq<char>, long: Seq<char>) -> bool {
    words::has_word(words, short) || words::has_word(words, long)
}

/// The words without the first of either of two flags.
pub open spec fn without_either(
    words: Seq<Seq<char>>,
    short: Seq<char>,
    long: Seq<char>,
) -> Seq<Seq<char>> {
    if words::has_word(words, short) {
        words::without_word(words, short)
    } else {
        words::without_word(words, long)
    }
}

/// `issue rm`.
pub open spec fn remove_command(words: Seq<Seq<char>>) -> Result<CommandModel, Seq<char>> {
    match one_id_in(without_either(words, "-f"@, "--force"@), "rm"@) {
        Err(why) => Err(why),
        Ok(id) => Ok(
            CommandModel::Remove { id, force: has_either(words, "-f"@, "--force"@) },
        ),
    }
}

/// Whether something is to be added or removed.
pub open spec fn adding_in(words: Seq<Seq<char>>, verb: Seq<char>) -> Result<bool, Seq<char>> {
    match words::verb_of(words) {
        None => Err(verb + " takes add or rm"@),
        Some(word) => if word == "add"@ {
            Ok(true)
        } else if word == "rm"@ {
            Ok(false)
        } else {
            Err(verb + " takes add or rm, not "@ + word)
        },
    }
}

/// `issue tag`.
pub open spec fn tag_command(words: Seq<Seq<char>>) -> Result<CommandModel, Seq<char>> {
    match adding_in(words, "tag"@) {
        Err(why) => Err(why),
        Ok(add) => match positionals(words::without_verb(words), 2, true, "tag"@) {
            Err(why) => Err(why),
            Ok(free) => match id_of(free[0]) {
                Err(why) => Err(why),
                Ok(id) => match tags_of(free.skip(1)) {
                    Err(why) => Err(why),
                    Ok(names) => Ok(CommandModel::Tag { id, names, add }),
                },
            },
        },
    }
}

/// `issue sub`.
pub open spec fn sub_command(words: Seq<Seq<char>>) -> Result<CommandModel, Seq<char>> {
    match adding_in(words, "sub"@) {
        Err(why) => Err(why),
        Ok(add) => match positionals(words::without_verb(words), 2, true, "sub"@) {
            Err(why) => Err(why),
            Ok(free) => match id_of(free[0]) {
                Err(why) => Err(why),
                Ok(id) => match ids_of(free.skip(1)) {
                    Err(why) => Err(why),
                    Ok(children) => Ok(CommandModel::Sub { id, children, add }),
                },
            },
        },
    }
}

/// The command that a verb and the words behind it ask for.
pub open spec fn command_of(verb: Seq<char>, words: Seq<Seq<char>>) -> Result<
    CommandModel,
    Seq<char>,
> {
    if verb == "list"@ {
        list_command(words)
    } else if verb == "show"@ {
        match one_id_in(words, "show"@) {
            Err(why) => Err(why),
            Ok(id) => Ok(CommandModel::Show(id)),
        }
    } else if verb == "new"@ {
        new_command(words)
    } else if verb == "set"@ {
        set_command(words)
    } else if verb == "rm"@ {
        remove_command(words)
    } else if verb == "tags"@ {
        match positionals(words, 0, false, "tags"@) {
            Err(why) => Err(why),
            Ok(_) => Ok(CommandModel::Tags),
        }
    } else if verb == "tag"@ {
        tag_command(words)
    } else if verb == "sub"@ {
        sub_command(words)
    } else if verb == "help"@ {
        Ok(CommandModel::Help)
    } else {
        Err("no such command: "@ + verb + ". Try `issue --help`"@)
    }
}

/// The colour option.
pub open spec fn colour_option(words: Seq<Seq<char>>) -> Result<Colour, Seq<char>> {
    match words::value_of(words, "--color"@) {
        Err(why) => Err(why),
        Ok(None) => Ok(Colour::Auto),
        Ok(Some(word)) => if word == "auto"@ {
            Ok(Colour::Auto)
        } else if word == "always"@ {
            Ok(Colour::Always)
        } else if word == "never"@ {
            Ok(Colour::Never)
        } else {
            Err("--color takes auto, always or never: "@ + word)
        },
    }
}

/// What to do once the options that hold for every command have been read.
pub open spec fn what_to_do(words: Seq<Seq<char>>) -> Result<CommandModel, Seq<char>> {
    let past_help = without_either(words, "-h"@, "--help"@);
    let past_version = without_either(past_help, "-V"@, "--version"@);
    if has_either(words, "-h"@, "--help"@) {
        Ok(CommandModel::Help)
    } else if has_either(past_help, "-V"@, "--version"@) {
        Ok(CommandModel::Version)
    } else {
        match words::verb_of(past_version) {
            None => Ok(CommandModel::Help),
            Some(verb) => command_of(verb, words::without_verb(past_version)),
        }
    }
}

/// A whole command line, read.
pub open spec fn parsed(words: Seq<Seq<char>>) -> Result<InvocationModel, Seq<char>> {
    let past_json = words::without_word(words, "--json"@);
    match colour_option(past_json) {
        Err(why) => Err(why),
        Ok(colour) => match what_to_do(words::without_value(past_json, "--color"@)) {
            Err(why) => Err(why),
            Ok(command) => Ok(
                InvocationModel { json: words::has_word(words, "--json"@), colour, command },
            ),
        },
    }
}

// ---------------------------------------------------------------------------
// Commands
// ---------------------------------------------------------------------------

/// Takes the tag option of a listing.
fn list_tag(args: &mut Words) -> (r: Result<Option<Tag>, Failure>)
    ensures
        match r {
            Ok(read) => read_if(
                words::value_of(old(args)@, "--tag"@),
                "tag"@,
                |raw: Seq<char>| tag_named(raw),
            ) == Ok::<Option<Seq<char>>, Seq<char>>(optional_name(read)),
            Err(Failure::Usage(said)) => read_if(
                words::value_of(old(args)@, "--tag"@),
                "tag"@,
                |raw: Seq<char>| tag_named(raw),
            ) == Err::<Option<Seq<char>>, Seq<char>>(said@),
            Err(_) => false,
        },
        final(args)@ == words::without_value(old(args)@, "--tag"@),
{
    proof {
        lemma_keys();
    }
    match value(args, "--tag") {
        Err(failure) => Err(failure),
        Ok(None) => Ok(None),
        Ok(Some(raw)) => match tag_from(raw.as_str()) {
            Ok(tag) => Ok(Some(tag)),
            Err(failure) => Err(failure),
        },
    }
}

/// Takes the parent option of a listing.
fn list_parent(args: &mut Words) -> (r: Result<Option<ParentFilter>, Failure>)
    ensures
        match r {
            Ok(read) => read_if(
                words::value_of(old(args)@, "--parent"@),
                "parent"@,
                |raw: Seq<char>| ParentFilter::named(raw),
            ) == Ok::<Option<ParentFilter>, Seq<char>>(read),
            Err(Failure::Usage(said)) => read_if(
                words::value_of(old(args)@, "--parent"@),
                "parent"@,
                |raw: Seq<char>| ParentFilter::named(raw),
            ) == Err::<Option<ParentFilter>, Seq<char>>(said@),
            Err(_) => false,
        },
        final(args)@ == words::without_value(old(args)@, "--parent"@),
{
    proof {
        lemma_keys();
    }
    match value(args, "--parent") {
        Err(failure) => Err(failure),
        Ok(None) => Ok(None),
        Ok(Some(raw)) => match ParentFilter::from_str(raw.as_str()) {
            Ok(parent) => Ok(Some(parent)),
            Err(err) => Err(Failure::Usage(err.to_string())),
        },
    }
}

fn list(args: Words) -> (r: Result<Command, Failure>)
    ensures
        match r {
            Ok(read) => list_command(args@) == Ok::<CommandModel, Seq<char>>(read@),
            Err(Failure::Usage(said)) => list_command(args@)
                == Err::<CommandModel, Seq<char>>(said@),
            Err(_) => false,
        },
{
    proof {
        lemma_keys();
    }
    let mut args = args;
    let status = match status(&mut args) {
        Ok(status) => status,
        Err(failure) => {
            return Err(failure);
        },
    };
    let tag = match list_tag(&mut args) {
        Ok(tag) => tag,
        Err(failure) => {
            return Err(failure);
        },
    };
    let search = match value(&mut args, "--search") {
        Ok(search) => search,
        Err(failure) => {
            return Err(failure);
        },
    };
    let parent = match list_parent(&mut args) {
        Ok(parent) => parent,
        Err(failure) => {
            return Err(failure);
        },
    };
    match rest(args, 0, false, "list") {
        Ok(_) => Ok(Command::List(Filters { status, tag, parent, search })),
        Err(failure) => Err(failure),
    }
}

/// Takes the tag options of a new Issue.
fn new_tags(args: &mut Words) -> (r: Result<Vec<Tag>, Failure>)
    ensures
        match r {
            Ok(read) => new_tags_in(old(args)@)
                == Ok::<Seq<Seq<char>>, Seq<char>>(tag::names(read@)),
            Err(Failure::Usage(said)) => new_tags_in(old(args)@)
                == Err::<Seq<Seq<char>>, Seq<char>>(said@),
            Err(_) => false,
        },
        final(args)@ == words::without_values(old(args)@, "--tag"@),
{
    proof {
        lemma_keys();
    }
    match args.take_values("--tag") {
        Ok(raw) => {
            assert(text::texts(raw@).skip(0) =~= text::texts(raw@));
            tags_from(&raw, 0)
        },
        Err(why) => Err(Failure::Usage(why)),
    }
}

/// Takes the parent option of a new Issue.
fn new_parent(args: &mut Words) -> (r: Result<Option<IssueId>, Failure>)
    ensures
        match r {
            Ok(read) => new_parent_in(old(args)@) == Ok::<Option<IssueId>, Seq<char>>(read),
            Err(Failure::Usage(said)) => new_parent_in(old(args)@)
                == Err::<Option<IssueId>, Seq<char>>(said@),
            Err(_) => false,
        },
        final(args)@ == words::without_value(old(args)@, "--parent"@),
{
    proof {
        lemma_keys();
    }
    match value(args, "--parent") {
        Err(failure) => Err(failure),
        Ok(None) => Ok(None),
        Ok(Some(raw)) => match id_from(raw.as_str()) {
            Ok(id) => Ok(Some(id)),
            Err(failure) => Err(failure),
        },
    }
}

/// Takes the size option of a new Issue.
fn new_size(args: &mut Words) -> (r: Result<Option<Size>, Failure>)
    ensures
        match r {
            Ok(read) => new_size_in(old(args)@) == Ok::<Option<Size>, Seq<char>>(read),
            Err(Failure::Usage(said)) => new_size_in(old(args)@)
                == Err::<Option<Size>, Seq<char>>(said@),
            Err(_) => false,
        },
        final(args)@ == words::without_value(old(args)@, "--size"@),
{
    proof {
        lemma_keys();
    }
    match value(args, "--size") {
        Err(failure) => Err(failure),
        Ok(None) => Ok(None),
        Ok(Some(raw)) => match size_from(raw.as_str(), ". Give a number from 0 to 255") {
            Ok(size) => Ok(Some(size)),
            Err(failure) => Err(failure),
        },
    }
}

fn new(args: Words) -> (r: Result<Command, Failure>)
    ensures
        match r {
            Ok(read) => new_command(args@) == Ok::<CommandModel, Seq<char>>(read@),
            Err(Failure::Usage(said)) => new_command(args@)
                == Err::<CommandModel, Seq<char>>(said@),
            Err(_) => false,
        },
{
    let mut args = args;
    let body = match body(&mut args) {
        Ok(body) => body,
        Err(failure) => {
            return Err(failure);
        },
    };
    let status = match status(&mut args) {
        Ok(status) => status,
        Err(failure) => {
            return Err(failure);
        },
    };
    let priority = match priority(&mut args) {
        Ok(priority) => priority,
        Err(failure) => {
            return Err(failure);
        },
    };
    let tags = match new_tags(&mut args) {
        Ok(tags) => tags,
        Err(failure) => {
            return Err(failure);
        },
    };
    let parent = match new_parent(&mut args) {
        Ok(parent) => parent,
        Err(failure) => {
            return Err(failure);
        },
    };
    let size = match new_size(&mut args) {
        Ok(size) => size,
        Err(failure) => {
            return Err(failure);
        },
    };
    let free = match rest(args, 1, false, "new") {
        Ok(free) => free,
        Err(failure) => {
            return Err(failure);
        },
    };
    assert(text::texts(free@)[0] == free@[0]@);
    let title = free[0].clone();
    if text::char_count(text::trim(title.as_str()).as_str()) == 0 {
        return Err(Failure::usage("a title is required: issue new \"Title\""));
    }
    Ok(Command::New(Box::new(NewIssue { title, body, status, priority, tags, parent, size })))
}

/// Takes the size option of a change.
fn set_size(args: &mut Words) -> (r: Result<Option<Option<Size>>, Failure>)
    ensures
        match r {
            Ok(read) => set_size_in(old(args)@) == Ok::<Option<Option<Size>>, Seq<char>>(read),
            Err(Failure::Usage(said)) => set_size_in(old(args)@)
                == Err::<Option<Option<Size>>, Seq<char>>(said@),
            Err(_) => false,
        },
        final(args)@ == words::without_value(old(args)@, "--size"@),
{
    proof {
        lemma_keys();
    }
    match value(args, "--size") {
        Err(failure) => Err(failure),
        Ok(None) => Ok(None),
        Ok(Some(raw)) => {
            if text::same(raw.as_str(), "none") {
                return Ok(Some(None));
            }
            match size_from(raw.as_str(), ". Give a number from 0 to 255, or none") {
                Ok(size) => Ok(Some(Some(size))),
                Err(failure) => Err(failure),
            }
        },
    }
}

fn set(args: Words) -> (r: Result<Command, Failure>)
    ensures
        match r {
            Ok(read) => set_command(args@) == Ok::<CommandModel, Seq<char>>(read@),
            Err(Failure::Usage(said)) => set_command(args@)
                == Err::<CommandModel, Seq<char>>(said@),
            Err(_) => false,
        },
{
    proof {
        lemma_keys();
    }
    let mut args = args;
    let title = match value(&mut args, "--title") {
        Ok(title) => title,
        Err(failure) => {
            return Err(failure);
        },
    };
    let body = match body(&mut args) {
        Ok(body) => body,
        Err(failure) => {
            return Err(failure);
        },
    };
    let status = match status(&mut args) {
        Ok(status) => status,
        Err(failure) => {
            return Err(failure);
        },
    };
    let priority = match priority(&mut args) {
        Ok(priority) => priority,
        Err(failure) => {
            return Err(failure);
        },
    };
    let size = match set_size(&mut args) {
        Ok(size) => size,
        Err(failure) => {
            return Err(failure);
        },
    };
    let id = match one_id(args, "set") {
        Ok(id) => id,
        Err(failure) => {
            return Err(failure);
        },
    };
    let changes = Changes { title, body, status, priority, size };
    // An empty patch is a valid no-op to the API, so it would exit 0 having
    // done nothing that was asked for. That is worth refusing.
    if changes.is_empty() {
        return Err(
            Failure::usage(
                "nothing to set. Give at least one of --title, --body, --status, --priority, --size",
            ),
        );
    }
    Ok(Command::Change(id, Box::new(changes)))
}

/// Takes either of two flags: the short one if it is there, or else the long.
fn flag(args: &mut Words, short: &'static str, long: &'static str) -> (r: bool)
    requires
        words::is_key(short@),
        words::is_key(long@),
    ensures
        r == has_either(old(args)@, short@, long@),
        final(args)@ == without_either(old(args)@, short@, long@),
{
    if args.take_flag(short) {
        return true;
    }
    args.take_flag(long)
}

fn remove(args: Words) -> (r: Result<Command, Failure>)
    ensures
        match r {
            Ok(read) => remove_command(args@) == Ok::<CommandModel, Seq<char>>(read@),
            Err(Failure::Usage(said)) => remove_command(args@)
                == Err::<CommandModel, Seq<char>>(said@),
            Err(_) => false,
        },
{
    proof {
        lemma_keys();
    }
    let mut args = args;
    let force = flag(&mut args, "-f", "--force");
    match one_id(args, "rm") {
        Ok(id) => Ok(Command::Remove { id, force }),
        Err(failure) => Err(failure),
    }
}

fn add_or_remove(args: &mut Words, verb: &str) -> (r: Result<bool, Failure>)
    ensures
        match r {
            Ok(read) => adding_in(old(args)@, verb@) == Ok::<bool, Seq<char>>(read),
            Err(Failure::Usage(said)) => adding_in(old(args)@, verb@)
                == Err::<bool, Seq<char>>(said@),
            Err(_) => false,
        },
        final(args)@ == words::without_verb(old(args)@),
{
    match args.take_verb() {
        Err(why) => Err(Failure::Usage(why)),
        Ok(Some(word)) => {
            if text::same(word.as_str(), "add") {
                return Ok(true);
            }
            if text::same(word.as_str(), "rm") {
                return Ok(false);
            }
            let mut message = verb.to_owned();
            message.push_str(" takes add or rm, not ");
            message.push_str(word.as_str());
            Err(Failure::Usage(message))
        },
        Ok(None) => {
            let mut message = verb.to_owned();
            message.push_str(" takes add or rm");
            Err(Failure::Usage(message))
        },
    }
}

fn tag(args: Words) -> (r: Result<Command, Failure>)
    ensures
        match r {
            Ok(read) => tag_command(args@) == Ok::<CommandModel, Seq<char>>(read@),
            Err(Failure::Usage(said)) => tag_command(args@)
                == Err::<CommandModel, Seq<char>>(said@),
            Err(_) => false,
        },
{
    let mut args = args;
    let add = match add_or_remove(&mut args, "tag") {
        Ok(add) => add,
        Err(failure) => {
            return Err(failure);
        },
    };
    let free = match rest(args, 2, true, "tag") {
        Ok(free) => free,
        Err(failure) => {
            return Err(failure);
        },
    };
    assert(text::texts(free@)[0] == free@[0]@);
    let id = match id_from(free[0].as_str()) {
        Ok(id) => id,
        Err(failure) => {
            return Err(failure);
        },
    };
    match tags_from(&free, 1) {
        Ok(names) => Ok(Command::Tag { id, names, add }),
        Err(failure) => Err(failure),
    }
}

fn sub(args: Words) -> (r: Result<Command, Failure>)
    ensures
        match r {
            Ok(read) => sub_command(args@) == Ok::<CommandModel, Seq<char>>(read@),
            Err(Failure::Usage(said)) => sub_command(args@)
                == Err::<CommandModel, Seq<char>>(said@),
            Err(_) => false,
        },
{
    let mut args = args;
    let add = match add_or_remove(&mut args, "sub") {
        Ok(add) => add,
        Err(failure) => {
            return Err(failure);
        },
    };
    let free = match rest(args, 2, true, "sub") {
        Ok(free) => free,
        Err(failure) => {
            return Err(failure);
        },
    };
    assert(text::texts(free@)[0] == free@[0]@);
    let id = match id_from(free[0].as_str()) {
        Ok(id) => id,
        Err(failure) => {
            return Err(failure);
        },
    };
    match ids_from(&free, 1) {
        Ok(children) => Ok(Command::Sub { id, children, add }),
        Err(failure) => Err(failure),
    }
}

/// The command that a verb and the words behind it ask for.
fn command(verb: &str, args: Words) -> (r: Result<Command, Failure>)
    ensures
        match r {
            Ok(read) => command_of(verb@, args@) == Ok::<CommandModel, Seq<char>>(read@),
            Err(Failure::Usage(said)) => command_of(verb@, args@)
                == Err::<CommandModel, Seq<char>>(said@),
            Err(_) => false,
        },
{
    if text::same(verb, "list") {
        list(args)
    } else if text::same(verb, "show") {
        match one_id(args, "show") {
            Ok(id) => Ok(Command::Show(id)),
            Err(failure) => Err(failure),
        }
    } else if text::same(verb, "new") {
        new(args)
    } else if text::same(verb, "set") {
        set(args)
    } else if text::same(verb, "rm") {
        remove(args)
    } else if text::same(verb, "tags") {
        match rest(args, 0, false, "tags") {
            Ok(_) => Ok(Command::Tags),
            Err(failure) => Err(failure),
        }
    } else if text::same(verb, "tag") {
        tag(args)
    } else if text::same(verb, "sub") {
        self::sub(args)
    } else if text::same(verb, "help") {
        Ok(Command::Help)
    } else {
        let mut message = "no such command: ".to_owned();
        message.push_str(verb);
        message.push_str(". Try `issue --help`");
        Err(Failure::Usage(message))
    }
}

/// Takes the colour option.
fn colour(args: &mut Words) -> (r: Result<Colour, Failure>)
    ensures
        match r {
            Ok(read) => colour_option(old(args)@) == Ok::<Colour, Seq<char>>(read),
            Err(Failure::Usage(said)) => colour_option(old(args)@)
                == Err::<Colour, Seq<char>>(said@),
            Err(_) => false,
        },
        final(args)@ == words::without_value(old(args)@, "--color"@),
{
    proof {
        lemma_keys();
    }
    match value(args, "--color") {
        Err(failure) => Err(failure),
        Ok(None) => Ok(Colour::Auto),
        Ok(Some(word)) => {
            if text::same(word.as_str(), "auto") {
                Ok(Colour::Auto)
            } else if text::same(word.as_str(), "always") {
                Ok(Colour::Always)
            } else if text::same(word.as_str(), "never") {
                Ok(Colour::Never)
            } else {
                let mut message = "--color takes auto, always or never: ".to_owned();
                message.push_str(word.as_str());
                Err(Failure::Usage(message))
            }
        },
    }
}

/// What to do once the options that hold for every command have been read.
fn decide(args: Words) -> (r: Result<Command, Failure>)
    ensures
        match r {
            Ok(read) => what_to_do(args@) == Ok::<CommandModel, Seq<char>>(read@),
            Err(Failure::Usage(said)) => what_to_do(args@) == Err::<CommandModel, Seq<char>>(said@),
            Err(_) => false,
        },
{
    proof {
        lemma_keys();
    }
    let mut args = args;
    if flag(&mut args, "-h", "--help") {
        return Ok(Command::Help);
    }
    if flag(&mut args, "-V", "--version") {
        return Ok(Command::Version);
    }
    match args.take_verb() {
        Err(why) => Err(Failure::Usage(why)),
        Ok(None) => Ok(Command::Help),
        Ok(Some(verb)) => command(verb.as_str(), args),
    }
}

/// Reads a whole command line, without the name of the program.
pub fn parse(argv: Vec<String>) -> (r: Result<Invocation, Failure>)
    ensures
        match r {
            Ok(read) => parsed(text::texts(argv@)) == Ok::<InvocationModel, Seq<char>>(read@),
            Err(Failure::Usage(said)) => parsed(text::texts(argv@))
                == Err::<InvocationModel, Seq<char>>(said@),
            Err(_) => false,
        },
{
    proof {
        lemma_keys();
    }
    let mut args = Words::new(argv);
    // Read anywhere in the line, so both `issue --json list` and
    // `issue list --json` work.
    let json = args.take_flag("--json");
    let colour = match colour(&mut args) {
        Ok(colour) => colour,
        Err(failure) => {
            return Err(failure);
        },
    };
    match decide(args) {
        Ok(command) => Ok(Invocation { json, colour, command }),
        Err(failure) => Err(failure),
    }
}

} // verus!
