//! Command lines as they are typed, and the commands they spell.

use vstd::prelude::*;

use crate::cli::args;
use crate::cli::args::{
    BodyModel, ChangesModel, Colour, CommandModel, FiltersModel, InvocationModel, NewModel,
};
use crate::cli::words;
use crate::domain::kinds::{IssueId, Priority, Status};
use crate::domain::narrowing::ParentFilter;
use crate::domain::tag;
use crate::text;

verus! {

/// Whether a word can be taken for no option: it has no dash in front, or is
/// nothing more than one character.
pub open spec fn is_value(word: Seq<char>) -> bool {
    word.len() <= 1 || word[0] != '-'
}

/// Whether a word is spelled as an option is.
pub open spec fn is_option(word: Seq<char>) -> bool {
    word.len() >= 2 && word[0] == '-'
}

/// Whether a word is nowhere among others.
pub open spec fn lacks(line: Seq<Seq<char>>, word: Seq<char>) -> bool {
    forall|i: int| 0 <= i < line.len() ==> #[trigger] line[i] != word
}

/// The words that spell options: for each that is given, its name and its value.
pub open spec fn spelled(options: Seq<(Seq<char>, Option<Seq<char>>)>) -> Seq<Seq<char>>
    decreases options.len(),
{
    if options.len() == 0 {
        Seq::empty()
    } else {
        (match options[0].1 {
            Some(value) => seq![options[0].0, value],
            None => Seq::empty(),
        }) + spelled(options.skip(1))
    }
}

/// Whether every value that is given can be taken for no option.
pub open spec fn valued(options: Seq<(Seq<char>, Option<Seq<char>>)>) -> bool {
    forall|i: int|
        0 <= i < options.len() ==> ((#[trigger] options[i]).1 matches Some(value) ==> is_value(
            value,
        ))
}

// ---------------------------------------------------------------------------
// Finding options
// ---------------------------------------------------------------------------

proof fn lemma_place(line: Seq<Seq<char>>, word: Seq<char>, at: int)
    requires
        0 <= at <= line.len(),
        forall|i: int| 0 <= i < at ==> #[trigger] line[i] != word,
        at < line.len() ==> line[at] == word,
    ensures
        words::place_of(line, word) == at,
    decreases at,
{
    if at > 0 {
        assert(line[0] != word);
        let rest = line.skip(1);
        assert forall|i: int| 0 <= i < at - 1 implies #[trigger] rest[i] != word by {
            assert(rest[i] == line[i + 1]);
        }
        lemma_place(rest, word, at - 1);
    }
}

proof fn lemma_lacking(line: Seq<Seq<char>>, word: Seq<char>)
    requires
        lacks(line, word),
    ensures
        !words::has_word(line, word),
        words::without_word(line, word) == line,
        words::value_of(line, word) == Ok::<Option<Seq<char>>, Seq<char>>(None),
        words::without_value(line, word) == line,
{
    lemma_place(line, word, line.len() as int);
}

proof fn lemma_lacks_both(a: Seq<Seq<char>>, b: Seq<Seq<char>>, word: Seq<char>)
    requires
        lacks(a, word),
        lacks(b, word),
    ensures
        lacks(a + b, word),
{
    assert forall|i: int| 0 <= i < (a + b).len() implies #[trigger] (a + b)[i] != word by {
        if i < a.len() {
            assert((a + b)[i] == a[i]);
        } else {
            assert((a + b)[i] == b[i - a.len()]);
        }
    }
}

proof fn lemma_spelled_lacks(options: Seq<(Seq<char>, Option<Seq<char>>)>, word: Seq<char>)
    requires
        is_option(word),
        valued(options),
        forall|i: int| 0 <= i < options.len() ==> (#[trigger] options[i]).0 != word,
    ensures
        lacks(spelled(options), word),
    decreases options.len(),
{
    if options.len() > 0 {
        let rest = options.skip(1);
        assert forall|i: int| 0 <= i < rest.len() implies (#[trigger] rest[i]).0 != word && (
        rest[i].1 matches Some(value) ==> is_value(value)) by {
            assert(rest[i] == options[i + 1]);
        }
        lemma_spelled_lacks(rest, word);
        assert(options[0].0 != word);
        let first = match options[0].1 {
            Some(value) => seq![options[0].0, value],
            None => Seq::empty(),
        };
        lemma_lacks_both(first, spelled(rest), word);
    }
}

proof fn lemma_values_lack(line: Seq<Seq<char>>, word: Seq<char>)
    requires
        is_option(word),
        forall|i: int| 0 <= i < line.len() ==> is_value(#[trigger] line[i]),
    ensures
        lacks(line, word),
{
}

/// The value of an option is the word behind it, and without the two the rest is
/// as it was.
pub proof fn an_option_has_the_word_behind_it(
    before: Seq<Seq<char>>,
    key: Seq<char>,
    value: Seq<char>,
    after: Seq<Seq<char>>,
)
    requires
        lacks(before, key),
    ensures
        words::value_of(before + seq![key, value] + after, key) == Ok::<
            Option<Seq<char>>,
            Seq<char>,
        >(Some(value)),
        words::without_value(before + seq![key, value] + after, key) == before + after,
{
    let line = before + seq![key, value] + after;
    let at = before.len() as int;
    assert forall|i: int| 0 <= i < at implies #[trigger] line[i] != key by {
        assert(line[i] == before[i]);
    }
    assert(line[at] == key);
    assert(line[at + 1] == value);
    lemma_place(line, key, at);
    assert(line.remove(at).remove(at) =~= before + after);
}

proof fn lemma_first_option(
    before: Seq<Seq<char>>,
    options: Seq<(Seq<char>, Option<Seq<char>>)>,
)
    requires
        options.len() > 0,
        lacks(before, options[0].0),
        options[0].1 is None ==> lacks(spelled(options.skip(1)), options[0].0),
    ensures
        words::value_of(before + spelled(options), options[0].0) == Ok::<
            Option<Seq<char>>,
            Seq<char>,
        >(options[0].1),
        words::without_value(before + spelled(options), options[0].0) == before + spelled(
            options.skip(1),
        ),
{
    let key = options[0].0;
    let after = spelled(options.skip(1));
    match options[0].1 {
        Some(value) => {
            an_option_has_the_word_behind_it(before, key, value, after);
            assert(before + spelled(options) =~= before + seq![key, value] + after);
        },
        None => {
            assert(spelled(options) =~= after);
            lemma_lacks_both(before, after, key);
            lemma_lacking(before + after, key);
        },
    }
}

/// How the options and verbs are spelled, as far as tells them apart.
proof fn lemma_names()
    ensures
        "-"@.len() == 1,
        "-"@[0] == '-',
        "--json"@.len() == 6 && "--json"@[0] == '-' && "--json"@[2] == 'j',
        "--help"@.len() == 6 && "--help"@[0] == '-' && "--help"@[2] == 'h',
        "--body"@.len() == 6 && "--body"@[0] == '-' && "--body"@[2] == 'b',
        "--size"@.len() == 6 && "--size"@[0] == '-' && "--size"@[2] == 's',
        "--color"@.len() == 7 && "--color"@[0] == '-' && "--color"@[2] == 'c',
        "--title"@.len() == 7 && "--title"@[0] == '-' && "--title"@[2] == 't',
        "--force"@.len() == 7 && "--force"@[0] == '-' && "--force"@[2] == 'f',
        "--status"@.len() == 8 && "--status"@[0] == '-' && "--status"@[3] == 't',
        "--search"@.len() == 8 && "--search"@[0] == '-' && "--search"@[3] == 'e',
        "--parent"@.len() == 8 && "--parent"@[0] == '-' && "--parent"@[3] == 'a',
        "--version"@.len() == 9 && "--version"@[0] == '-',
        "--priority"@.len() == 10 && "--priority"@[0] == '-',
        "--tag"@.len() == 5 && "--tag"@[0] == '-',
        "-h"@.len() == 2 && "-h"@[0] == '-' && "-h"@[1] == 'h',
        "-V"@.len() == 2 && "-V"@[0] == '-' && "-V"@[1] == 'V',
        "-f"@.len() == 2 && "-f"@[0] == '-' && "-f"@[1] == 'f',
{
    reveal_strlit("-");
    reveal_strlit("--json");
    reveal_strlit("--help");
    reveal_strlit("--body");
    reveal_strlit("--size");
    reveal_strlit("--color");
    reveal_strlit("--title");
    reveal_strlit("--force");
    reveal_strlit("--status");
    reveal_strlit("--search");
    reveal_strlit("--parent");
    reveal_strlit("--version");
    reveal_strlit("--priority");
    reveal_strlit("--tag");
    reveal_strlit("-h");
    reveal_strlit("-V");
    reveal_strlit("-f");
}

proof fn lemma_verbs()
    ensures
        "list"@.len() == 4 && "list"@[0] == 'l',
        "show"@.len() == 4 && "show"@[0] == 's',
        "tags"@.len() == 4 && "tags"@[0] == 't',
        "help"@.len() == 4 && "help"@[0] == 'h',
        "new"@.len() == 3 && "new"@[0] == 'n',
        "set"@.len() == 3 && "set"@[0] == 's' && "set"@[1] == 'e',
        "sub"@.len() == 3 && "sub"@[0] == 's' && "sub"@[1] == 'u',
        "tag"@.len() == 3 && "tag"@[0] == 't',
        "add"@.len() == 3 && "add"@[0] == 'a',
        "rm"@.len() == 2 && "rm"@[0] == 'r',
        "none"@.len() == 4 && "none"@[0] == 'n',
{
    reveal_strlit("list");
    reveal_strlit("show");
    reveal_strlit("tags");
    reveal_strlit("help");
    reveal_strlit("new");
    reveal_strlit("set");
    reveal_strlit("sub");
    reveal_strlit("tag");
    reveal_strlit("add");
    reveal_strlit("rm");
    reveal_strlit("none");
}

/// Whether a line has none of the options that go with every command.
pub open spec fn no_global(line: Seq<Seq<char>>) -> bool {
    &&& lacks(line, "--json"@)
    &&& lacks(line, "--color"@)
    &&& lacks(line, "-h"@)
    &&& lacks(line, "--help"@)
    &&& lacks(line, "-V"@)
    &&& lacks(line, "--version"@)
}

/// Whether a line is read as a command and nothing besides.
#[verifier::opaque]
pub open spec fn reads_as(line: Seq<Seq<char>>, command: CommandModel) -> bool {
    args::parsed(line) == Ok::<InvocationModel, Seq<char>>(
        InvocationModel { json: false, colour: Colour::Auto, command },
    )
}

/// Whether a verb and what follows it spell a command.
#[verifier::opaque]
spec fn spells(verb: Seq<char>, line: Seq<Seq<char>>, command: CommandModel) -> bool {
    args::command_of(verb, line) == Ok::<CommandModel, Seq<char>>(command)
}

#[verifier::spinoff_prover]
#[verifier::rlimit(40)]
proof fn lemma_plain_line(line: Seq<Seq<char>>, command: CommandModel)
    requires
        line.len() > 0,
        line[0].len() > 0,
        line[0][0] != '-',
        no_global(line),
        spells(line[0], line.skip(1), command),
    ensures
        reads_as(line, command),
{
    reveal(spells);
    reveal(reads_as);
    lemma_names();
    lemma_lacking(line, "--json"@);
    lemma_lacking(line, "--color"@);
    lemma_lacking(line, "-h"@);
    lemma_lacking(line, "--help"@);
    lemma_lacking(line, "-V"@);
    lemma_lacking(line, "--version"@);
    if text::starts_with(line[0], "-"@) {
        assert(line[0].take(1)[0] == line[0][0]);
    }
}

proof fn lemma_no_stray(line: Seq<Seq<char>>)
    requires
        forall|i: int| 0 <= i < line.len() ==> is_value(#[trigger] line[i]),
    ensures
        args::first_stray(line) is None,
    decreases line.len(),
{
    if line.len() > 0 {
        lemma_names();
        let word = line[0];
        if text::starts_with(word, "-"@) {
            assert(word.take(1)[0] == word[0]);
            assert(word =~= "-"@);
        }
        let rest = line.skip(1);
        assert forall|i: int| 0 <= i < rest.len() implies is_value(#[trigger] rest[i]) by {
            assert(rest[i] == line[i + 1]);
        }
        lemma_no_stray(rest);
    }
}

proof fn lemma_values_have_no_global(line: Seq<Seq<char>>)
    requires
        forall|i: int| 0 <= i < line.len() ==> is_value(#[trigger] line[i]),
    ensures
        no_global(line),
{
    lemma_names();
    lemma_values_lack(line, "--json"@);
    lemma_values_lack(line, "--color"@);
    lemma_values_lack(line, "-h"@);
    lemma_values_lack(line, "--help"@);
    lemma_values_lack(line, "-V"@);
    lemma_values_lack(line, "--version"@);
}

proof fn lemma_no_global(
    line: Seq<Seq<char>>,
    options: Seq<(Seq<char>, Option<Seq<char>>)>,
)
    requires
        forall|i: int| 0 <= i < line.len() ==> is_value(#[trigger] line[i]),
        valued(options),
        forall|i: int|
            0 <= i < options.len() ==> {
                &&& (#[trigger] options[i]).0 != "--json"@
                &&& options[i].0 != "--color"@
                &&& options[i].0 != "-h"@
                &&& options[i].0 != "--help"@
                &&& options[i].0 != "-V"@
                &&& options[i].0 != "--version"@
            },
    ensures
        no_global(line + spelled(options)),
{
    lemma_names();
    lemma_values_have_no_global(line);
    lemma_spelled_lacks(options, "--json"@);
    lemma_spelled_lacks(options, "--color"@);
    lemma_spelled_lacks(options, "-h"@);
    lemma_spelled_lacks(options, "--help"@);
    lemma_spelled_lacks(options, "-V"@);
    lemma_spelled_lacks(options, "--version"@);
    lemma_lacks_both(line, spelled(options), "--json"@);
    lemma_lacks_both(line, spelled(options), "--color"@);
    lemma_lacks_both(line, spelled(options), "-h"@);
    lemma_lacks_both(line, spelled(options), "--help"@);
    lemma_lacks_both(line, spelled(options), "-V"@);
    lemma_lacks_both(line, spelled(options), "--version"@);
}

#[verifier::spinoff_prover]
#[verifier::rlimit(40)]
proof fn lemma_dispatch(line: Seq<Seq<char>>)
    ensures
        args::command_of("list"@, line) == args::list_command(line),
        args::command_of("show"@, line) == match args::one_id_in(line, "show"@) {
            Err(why) => Err::<CommandModel, Seq<char>>(why),
            Ok(id) => Ok(CommandModel::Show(id)),
        },
        args::command_of("new"@, line) == args::new_command(line),
        args::command_of("set"@, line) == args::set_command(line),
        args::command_of("rm"@, line) == args::remove_command(line),
        args::command_of("tags"@, line) == match args::positionals(line, 0, false, "tags"@) {
            Err(why) => Err::<CommandModel, Seq<char>>(why),
            Ok(_) => Ok(CommandModel::Tags),
        },
        args::command_of("help"@, line) == Ok::<CommandModel, Seq<char>>(CommandModel::Help),
{
    lemma_verbs();
}

proof fn lemma_spelled_out(line: Seq<Seq<char>>, command: CommandModel)
    ensures
        args::list_command(line) == Ok::<CommandModel, Seq<char>>(command) ==> spells(
            "list"@,
            line,
            command,
        ),
        args::set_command(line) == Ok::<CommandModel, Seq<char>>(command) ==> spells(
            "set"@,
            line,
            command,
        ),
        args::new_command(line) == Ok::<CommandModel, Seq<char>>(command) ==> spells(
            "new"@,
            line,
            command,
        ),
{
    reveal(spells);
    lemma_dispatch(line);
}

proof fn lemma_one_id(raw: Seq<char>, id: IssueId, verb: Seq<char>)
    requires
        is_value(raw),
        text::integer(raw) == Some(id as int),
    ensures
        args::one_id_in(seq![raw], verb) == Ok::<IssueId, Seq<char>>(id),
{
    lemma_no_stray(seq![raw]);
}

// ---------------------------------------------------------------------------
// Commands without options
// ---------------------------------------------------------------------------

#[verifier::spinoff_prover]
#[verifier::rlimit(40)]
proof fn lemma_show_line(raw: Seq<char>, id: IssueId)
    requires
        is_value(raw),
        text::integer(raw) == Some(id as int),
    ensures
        reads_as(seq!["show"@, raw], CommandModel::Show(id)),
{
    reveal(spells);
    lemma_verbs();
    let line = seq!["show"@, raw];
    lemma_values_have_no_global(line);
    lemma_one_id(raw, id, "show"@);
    assert(line.skip(1) =~= seq![raw]);
    lemma_dispatch(seq![raw]);
    lemma_plain_line(line, CommandModel::Show(id));
}

#[verifier::spinoff_prover]
#[verifier::rlimit(40)]
proof fn lemma_remove_line(raw: Seq<char>, id: IssueId)
    requires
        is_value(raw),
        text::integer(raw) == Some(id as int),
    ensures
        reads_as(seq!["rm"@, raw], CommandModel::Remove { id, force: false }),
{
    reveal(spells);
    lemma_verbs();
    let line = seq!["rm"@, raw];
    let one = seq![raw];
    lemma_values_have_no_global(line);
    lemma_one_id(raw, id, "rm"@);
    assert(line.skip(1) =~= one);
    assert(lacks(one, "-f"@) && lacks(one, "--force"@)) by {
        lemma_names();
    }
    lemma_lacking(one, "-f"@);
    lemma_lacking(one, "--force"@);
    lemma_dispatch(one);
    lemma_plain_line(line, CommandModel::Remove { id, force: false });
}

#[verifier::spinoff_prover]
#[verifier::rlimit(40)]
proof fn lemma_bare_lines()
    ensures
        reads_as(seq!["tags"@], CommandModel::Tags),
        reads_as(seq!["help"@], CommandModel::Help),
        reads_as(Seq::empty(), CommandModel::Help),
{
    reveal(spells);
    reveal(reads_as);
    lemma_verbs();
    let nothing = Seq::<Seq<char>>::empty();
    lemma_values_have_no_global(seq!["tags"@]);
    lemma_values_have_no_global(seq!["help"@]);
    assert(seq!["tags"@].skip(1) =~= nothing);
    assert(seq!["help"@].skip(1) =~= nothing);
    lemma_no_stray(nothing);
    lemma_dispatch(nothing);
    lemma_plain_line(seq!["tags"@], CommandModel::Tags);
    lemma_plain_line(seq!["help"@], CommandModel::Help);
    lemma_lacking(nothing, "--json"@);
    lemma_lacking(nothing, "--color"@);
    lemma_lacking(nothing, "-h"@);
    lemma_lacking(nothing, "--help"@);
    lemma_lacking(nothing, "-V"@);
    lemma_lacking(nothing, "--version"@);
}

/// `show 7` shows Issue 7, `tags` lists the Tags, and an empty line asks for help.
pub proof fn a_short_line_is_read(raw: Seq<char>, id: IssueId)
    requires
        is_value(raw),
        text::integer(raw) == Some(id as int),
    ensures
        reads_as(seq!["show"@, raw], CommandModel::Show(id)),
        reads_as(seq!["rm"@, raw], CommandModel::Remove { id, force: false }),
        reads_as(seq!["tags"@], CommandModel::Tags),
        reads_as(seq!["help"@], CommandModel::Help),
        reads_as(Seq::empty(), CommandModel::Help),
{
    lemma_show_line(raw, id);
    lemma_remove_line(raw, id);
    lemma_bare_lines();
}

/// `rm 7 --force` erases Issue 7 without a question, and so does `rm 7 -f`.
#[verifier::spinoff_prover]
#[verifier::rlimit(40)]
pub proof fn a_forced_removal_is_read(raw: Seq<char>, id: IssueId)
    requires
        is_value(raw),
        text::integer(raw) == Some(id as int),
    ensures
        reads_as(seq!["rm"@, raw, "--force"@], CommandModel::Remove { id, force: true }),
        reads_as(seq!["rm"@, raw, "-f"@], CommandModel::Remove { id, force: true }),
{
    reveal(spells);
    lemma_verbs();
    lemma_names();
    let long = seq!["rm"@, raw, "--force"@];
    let short = seq!["rm"@, raw, "-f"@];
    let one = seq![raw];
    assert(long.skip(1) =~= seq![raw, "--force"@]);
    assert(short.skip(1) =~= seq![raw, "-f"@]);
    lemma_place(seq![raw, "--force"@], "--force"@, 1);
    lemma_place(seq![raw, "--force"@], "-f"@, 2);
    lemma_place(seq![raw, "-f"@], "-f"@, 1);
    assert(seq![raw, "--force"@].remove(1) =~= one);
    assert(seq![raw, "-f"@].remove(1) =~= one);
    lemma_no_stray(one);
    lemma_plain_line(long, CommandModel::Remove { id, force: true });
    lemma_plain_line(short, CommandModel::Remove { id, force: true });
}

// ---------------------------------------------------------------------------
// Several of a kind
// ---------------------------------------------------------------------------

proof fn lemma_tags_read(raw: Seq<Seq<char>>)
    requires
        forall|i: int| 0 <= i < raw.len() ==> tag::usable_name(text::trimmed(#[trigger] raw[i])),
    ensures
        args::tags_of(raw) == Ok::<Seq<Seq<char>>, Seq<char>>(
            raw.map_values(|w: Seq<char>| text::trimmed(w)),
        ),
    decreases raw.len(),
{
    if raw.len() > 0 {
        let rest = raw.skip(1);
        assert forall|i: int| 0 <= i < rest.len() implies tag::usable_name(
            text::trimmed(#[trigger] rest[i]),
        ) by {
            assert(rest[i] == raw[i + 1]);
        }
        lemma_tags_read(rest);
        assert(tag::usable_name(text::trimmed(raw[0])));
        assert(seq![text::trimmed(raw[0])] + rest.map_values(|w: Seq<char>| text::trimmed(w))
            =~= raw.map_values(|w: Seq<char>| text::trimmed(w)));
    } else {
        assert(raw.map_values(|w: Seq<char>| text::trimmed(w)) =~= Seq::<Seq<char>>::empty());
    }
}

proof fn lemma_ids_read(raw: Seq<Seq<char>>, ids: Seq<IssueId>)
    requires
        raw.len() == ids.len(),
        forall|i: int|
            0 <= i < raw.len() ==> text::integer(#[trigger] raw[i]) == Some(ids[i] as int),
    ensures
        args::ids_of(raw) == Ok::<Seq<IssueId>, Seq<char>>(ids),
    decreases raw.len(),
{
    if raw.len() > 0 {
        let rest = raw.skip(1);
        assert forall|i: int| 0 <= i < rest.len() implies text::integer(#[trigger] rest[i]) == Some(
            ids.skip(1)[i] as int,
        ) by {
            assert(rest[i] == raw[i + 1]);
        }
        lemma_ids_read(rest, ids.skip(1));
        assert(text::integer(raw[0]) == Some(ids[0] as int));
        assert(seq![ids[0]] + ids.skip(1) =~= ids);
    } else {
        assert(ids =~= Seq::<IssueId>::empty());
    }
}

/// `tag add 7 a b` puts Tags `a` and `b` on Issue 7, and `tag rm 7 a b` takes
/// them off, each without the white space round it.
#[verifier::spinoff_prover]
#[verifier::rlimit(40)]
pub proof fn a_tag_line_is_read(add: bool, raw: Seq<char>, id: IssueId, names: Seq<Seq<char>>)
    requires
        is_value(raw),
        text::integer(raw) == Some(id as int),
        names.len() > 0,
        forall|i: int|
            0 <= i < names.len() ==> is_value(#[trigger] names[i]) && tag::usable_name(
                text::trimmed(names[i]),
            ),
    ensures
        reads_as(
            seq![
                "tag"@,
                if add {
                    "add"@
                } else {
                    "rm"@
                },
                raw,
            ] + names,
            CommandModel::Tag {
                id,
                names: names.map_values(|w: Seq<char>| text::trimmed(w)),
                add,
            },
        ),
{
    reveal(spells);
    lemma_verbs();
    lemma_names();
    let way = if add {
        "add"@
    } else {
        "rm"@
    };
    let line = seq!["tag"@, way, raw] + names;
    let within = line.skip(1);
    let free = seq![raw] + names;
    assert(within.skip(1) =~= free);
    assert(free.skip(1) =~= names);
    assert forall|i: int| 0 <= i < line.len() implies is_value(#[trigger] line[i]) by {
        if i >= 3 {
            assert(line[i] == names[i - 3]);
        }
    }
    assert forall|i: int| 0 <= i < free.len() implies is_value(#[trigger] free[i]) by {
        if i >= 1 {
            assert(free[i] == names[i - 1]);
        }
    }
    lemma_values_have_no_global(line);
    lemma_no_stray(free);
    lemma_tags_read(names);
    assert(within[0] == way);
    if text::starts_with(way, "-"@) {
        assert(way.take(1)[0] == way[0]);
    }
    lemma_plain_line(
        line,
        CommandModel::Tag { id, names: names.map_values(|w: Seq<char>| text::trimmed(w)), add },
    );
}

/// `sub add 7 8 9` makes Issues 8 and 9 parts of Issue 7, and `sub rm 7 8 9`
/// frees them.
#[verifier::spinoff_prover]
#[verifier::rlimit(40)]
pub proof fn a_sub_line_is_read(
    add: bool,
    raw: Seq<char>,
    id: IssueId,
    others: Seq<Seq<char>>,
    children: Seq<IssueId>,
)
    requires
        is_value(raw),
        text::integer(raw) == Some(id as int),
        others.len() > 0,
        others.len() == children.len(),
        forall|i: int|
            0 <= i < others.len() ==> is_value(#[trigger] others[i]) && text::integer(others[i])
                == Some(children[i] as int),
    ensures
        reads_as(
            seq![
                "sub"@,
                if add {
                    "add"@
                } else {
                    "rm"@
                },
                raw,
            ] + others,
            CommandModel::Sub { id, children, add },
        ),
{
    reveal(spells);
    lemma_verbs();
    lemma_names();
    let way = if add {
        "add"@
    } else {
        "rm"@
    };
    let line = seq!["sub"@, way, raw] + others;
    let within = line.skip(1);
    let free = seq![raw] + others;
    assert(within.skip(1) =~= free);
    assert(free.skip(1) =~= others);
    assert forall|i: int| 0 <= i < line.len() implies is_value(#[trigger] line[i]) by {
        if i >= 3 {
            assert(line[i] == others[i - 3]);
        }
    }
    assert forall|i: int| 0 <= i < free.len() implies is_value(#[trigger] free[i]) by {
        if i >= 1 {
            assert(free[i] == others[i - 1]);
        }
    }
    lemma_values_have_no_global(line);
    lemma_no_stray(free);
    lemma_ids_read(others, children);
    assert(within[0] == way);
    if text::starts_with(way, "-"@) {
        assert(way.take(1)[0] == way[0]);
    }
    lemma_plain_line(line, CommandModel::Sub { id, children, add });
}

// ---------------------------------------------------------------------------
// Commands with options
// ---------------------------------------------------------------------------

proof fn lemma_one_lacks(word: Seq<char>)
    requires
        is_value(word),
    ensures
        lacks(seq![word], "--title"@),
        lacks(seq![word], "--body"@),
        lacks(seq![word], "--status"@),
        lacks(seq![word], "--priority"@),
        lacks(seq![word], "--tag"@),
        lacks(seq![word], "--parent"@),
        lacks(seq![word], "--size"@),
{
    lemma_names();
}

/// What a body option means: a dash is standard input, anything else the text.
pub open spec fn is_body_read(raw: Option<Seq<char>>, body: Option<BodyModel>) -> bool {
    match raw {
        None => body is None,
        Some(word) => if word == "-"@ {
            body == Some(BodyModel::Stdin)
        } else {
            body == Some(BodyModel::Text(word))
        },
    }
}

#[verifier::spinoff_prover]
#[verifier::rlimit(40)]
proof fn lemma_list_command(line: Seq<Seq<char>>, filters: FiltersModel)
    requires
        ({
            let past_status = words::without_value(line, "--status"@);
            let past_tag = words::without_value(past_status, "--tag"@);
            let past_search = words::without_value(past_tag, "--search"@);
            &&& words::value_of(line, "--status"@) matches Ok(status) && (filters.status is Some
                <==> status is Some) && (status matches Some(raw) ==> Status::named(raw)
                == filters.status)
            &&& words::value_of(past_status, "--tag"@) matches Ok(name) && (filters.tag is Some
                <==> name is Some) && (name matches Some(raw) ==> tag::usable_name(
                text::trimmed(raw),
            ) && filters.tag == Some(text::trimmed(raw)))
            &&& words::value_of(past_tag, "--search"@) == Ok::<Option<Seq<char>>, Seq<char>>(
                filters.search,
            )
            &&& words::value_of(past_search, "--parent"@) matches Ok(parent) && (
            filters.parent is Some <==> parent is Some) && (parent matches Some(raw)
                ==> ParentFilter::named(raw) == filters.parent)
            &&& words::without_value(past_search, "--parent"@).len() == 0
        }),
    ensures
        args::list_command(line) == Ok::<CommandModel, Seq<char>>(CommandModel::List(filters)),
{
    lemma_no_stray(Seq::empty());
}

/// `list` with any of its four options narrows by each that is given.
#[verifier::spinoff_prover]
#[verifier::rlimit(40)]
pub proof fn a_list_line_is_read(
    status: Option<Seq<char>>,
    name: Option<Seq<char>>,
    search: Option<Seq<char>>,
    parent: Option<Seq<char>>,
    filters: FiltersModel,
)
    requires
        valued(
            seq![
                ("--status"@, status),
                ("--tag"@, name),
                ("--search"@, search),
                ("--parent"@, parent),
            ],
        ),
        filters.status is Some <==> status is Some,
        status matches Some(raw) ==> Status::named(raw) == filters.status,
        filters.tag is Some <==> name is Some,
        name matches Some(raw) ==> tag::usable_name(text::trimmed(raw)) && filters.tag == Some(
            text::trimmed(raw),
        ),
        filters.search == search,
        filters.parent is Some <==> parent is Some,
        parent matches Some(raw) ==> ParentFilter::named(raw) == filters.parent,
    ensures
        reads_as(
            seq!["list"@] + spelled(
                seq![
                    ("--status"@, status),
                    ("--tag"@, name),
                    ("--search"@, search),
                    ("--parent"@, parent),
                ],
            ),
            CommandModel::List(filters),
        ),
{
    let none = Seq::<Seq<char>>::empty();
    let o0 = seq![
        ("--status"@, status),
        ("--tag"@, name),
        ("--search"@, search),
        ("--parent"@, parent),
    ];
    let o1 = seq![("--tag"@, name), ("--search"@, search), ("--parent"@, parent)];
    let o2 = seq![("--search"@, search), ("--parent"@, parent)];
    let o3 = seq![("--parent"@, parent)];
    let o4 = Seq::<(Seq<char>, Option<Seq<char>>)>::empty();
    assert(o0.skip(1) =~= o1);
    assert(o1.skip(1) =~= o2);
    assert(o2.skip(1) =~= o3);
    assert(o3.skip(1) =~= o4);
    lemma_valued_skip(o0);
    lemma_valued_skip(o1);
    lemma_valued_skip(o2);
    assert(lacks(spelled(o1), "--status"@)) by {
        lemma_names();
        lemma_spelled_lacks(o1, "--status"@);
    }
    assert(lacks(spelled(o2), "--tag"@)) by {
        lemma_names();
        lemma_spelled_lacks(o2, "--tag"@);
    }
    assert(lacks(spelled(o3), "--search"@)) by {
        lemma_names();
        lemma_spelled_lacks(o3, "--search"@);
    }
    lemma_first_option(none, o0);
    lemma_first_option(none, o1);
    lemma_first_option(none, o2);
    lemma_first_option(none, o3);
    lemma_list_command(none + spelled(o0), filters);
    lemma_spelled_out(none + spelled(o0), CommandModel::List(filters));
    let line = seq!["list"@] + spelled(o0);
    assert(line.skip(1) =~= none + spelled(o0));
    assert(no_global(line) && line[0][0] != '-' && line[0].len() > 0) by {
        lemma_names();
        lemma_verbs();
        lemma_no_global(seq!["list"@], o0);
    }
    lemma_plain_line(line, CommandModel::List(filters));
}

/// What a Size option means to `set`: `none` takes the Size away, and a number up
/// to 255 is the Size.
pub open spec fn is_size_read(raw: Option<Seq<char>>, size: Option<Option<u8>>) -> bool {
    match raw {
        None => size is None,
        Some(word) => if word == "none"@ {
            size == Some(None::<u8>)
        } else {
            text::number(word, 255) matches Some(n) && n <= 255 && size == Some(Some(n as u8))
        },
    }
}

#[verifier::spinoff_prover]
#[verifier::rlimit(40)]
proof fn lemma_set_command(line: Seq<Seq<char>>, raw: Seq<char>, id: IssueId, changes: ChangesModel)
    requires
        ({
            let past_title = words::without_value(line, "--title"@);
            let past_body = words::without_value(past_title, "--body"@);
            let past_status = words::without_value(past_body, "--status"@);
            let past_priority = words::without_value(past_status, "--priority"@);
            &&& words::value_of(line, "--title"@) == Ok::<Option<Seq<char>>, Seq<char>>(
                changes.title,
            )
            &&& words::value_of(past_title, "--body"@) matches Ok(body) && is_body_read(
                body,
                changes.body,
            )
            &&& words::value_of(past_body, "--status"@) matches Ok(status) && (
            changes.status is Some <==> status is Some) && (status matches Some(word)
                ==> Status::named(word) == changes.status)
            &&& words::value_of(past_status, "--priority"@) matches Ok(priority) && (
            changes.priority is Some <==> priority is Some) && (priority matches Some(word)
                ==> Priority::named(word) == changes.priority)
            &&& words::value_of(past_priority, "--size"@) matches Ok(size) && is_size_read(
                size,
                changes.size,
            )
            &&& words::without_value(past_priority, "--size"@) == seq![raw]
            &&& is_value(raw)
            &&& text::integer(raw) == Some(id as int)
            &&& changes.title is Some || changes.body is Some || changes.status is Some
                || changes.priority is Some || changes.size is Some
        }),
    ensures
        args::set_command(line) == Ok::<CommandModel, Seq<char>>(CommandModel::Change(id, changes)),
{
    lemma_one_id(raw, id, "set"@);
}

#[verifier::spinoff_prover]
#[verifier::rlimit(40)]
proof fn lemma_set_words(
    raw: Seq<char>,
    id: IssueId,
    title: Option<Seq<char>>,
    body: Option<Seq<char>>,
    status: Option<Seq<char>>,
    priority: Option<Seq<char>>,
    size: Option<Seq<char>>,
    changes: ChangesModel,
)
    requires
        is_value(raw),
        text::integer(raw) == Some(id as int),
        valued(
            seq![
                ("--title"@, title),
                ("--body"@, body),
                ("--status"@, status),
                ("--priority"@, priority),
                ("--size"@, size),
            ],
        ),
        title is Some || body is Some || status is Some || priority is Some || size is Some,
        changes.title == title,
        is_body_read(body, changes.body),
        changes.status is Some <==> status is Some,
        status matches Some(word) ==> Status::named(word) == changes.status,
        changes.priority is Some <==> priority is Some,
        priority matches Some(word) ==> Priority::named(word) == changes.priority,
        is_size_read(size, changes.size),
    ensures
        spells(
            "set"@,
            seq![raw] + spelled(
                seq![
                    ("--title"@, title),
                    ("--body"@, body),
                    ("--status"@, status),
                    ("--priority"@, priority),
                    ("--size"@, size),
                ],
            ),
            CommandModel::Change(id, changes),
        ),
{
    let one = seq![raw];
    let o0 = seq![
        ("--title"@, title),
        ("--body"@, body),
        ("--status"@, status),
        ("--priority"@, priority),
        ("--size"@, size),
    ];
    let o1 = seq![
        ("--body"@, body),
        ("--status"@, status),
        ("--priority"@, priority),
        ("--size"@, size),
    ];
    let o2 = seq![("--status"@, status), ("--priority"@, priority), ("--size"@, size)];
    let o3 = seq![("--priority"@, priority), ("--size"@, size)];
    let o4 = seq![("--size"@, size)];
    let o5 = Seq::<(Seq<char>, Option<Seq<char>>)>::empty();
    assert(o0.skip(1) =~= o1);
    assert(o1.skip(1) =~= o2);
    assert(o2.skip(1) =~= o3);
    assert(o3.skip(1) =~= o4);
    assert(o4.skip(1) =~= o5);
    lemma_valued_skip(o0);
    lemma_valued_skip(o1);
    lemma_valued_skip(o2);
    lemma_valued_skip(o3);
    assert(lacks(spelled(o1), "--title"@)) by {
        lemma_names();
        lemma_spelled_lacks(o1, "--title"@);
    }
    assert(lacks(spelled(o2), "--body"@)) by {
        lemma_names();
        lemma_spelled_lacks(o2, "--body"@);
    }
    assert(lacks(spelled(o3), "--status"@)) by {
        lemma_names();
        lemma_spelled_lacks(o3, "--status"@);
    }
    assert(lacks(spelled(o4), "--priority"@)) by {
        lemma_names();
        lemma_spelled_lacks(o4, "--priority"@);
    }
    lemma_one_lacks(raw);
    lemma_first_option(one, o0);
    lemma_first_option(one, o1);
    lemma_first_option(one, o2);
    lemma_first_option(one, o3);
    lemma_first_option(one, o4);
    assert(one + spelled(o5) =~= one);
    lemma_set_command(one + spelled(o0), raw, id, changes);
    lemma_spelled_out(one + spelled(o0), CommandModel::Change(id, changes));
}

#[verifier::spinoff_prover]
#[verifier::rlimit(40)]
proof fn lemma_set_globals(
    raw: Seq<char>,
    title: Option<Seq<char>>,
    body: Option<Seq<char>>,
    status: Option<Seq<char>>,
    priority: Option<Seq<char>>,
    size: Option<Seq<char>>,
)
    requires
        is_value(raw),
        valued(
            seq![
                ("--title"@, title),
                ("--body"@, body),
                ("--status"@, status),
                ("--priority"@, priority),
                ("--size"@, size),
            ],
        ),
    ensures
        no_global(
            seq!["set"@, raw] + spelled(
                seq![
                    ("--title"@, title),
                    ("--body"@, body),
                    ("--status"@, status),
                    ("--priority"@, priority),
                    ("--size"@, size),
                ],
            ),
        ),
{
    let options = seq![
        ("--title"@, title),
        ("--body"@, body),
        ("--status"@, status),
        ("--priority"@, priority),
        ("--size"@, size),
    ];
    lemma_names();
    lemma_verbs();
    assert forall|i: int| 0 <= i < options.len() implies {
        &&& (#[trigger] options[i]).0 != "--json"@
        &&& options[i].0 != "--color"@
        &&& options[i].0 != "-h"@
        &&& options[i].0 != "--help"@
        &&& options[i].0 != "-V"@
        &&& options[i].0 != "--version"@
    } by {
        let key = options[i].0;
        assert(key == "--title"@ || key == "--body"@ || key == "--status"@ || key == "--priority"@
            || key == "--size"@);
    }
    lemma_no_global(seq!["set"@, raw], options);
}

/// `set 7` with any of its five options changes each field that is given, and
/// leaves the others alone. `--size none` takes the Size away.
#[verifier::spinoff_prover]
#[verifier::rlimit(40)]
pub proof fn a_set_line_is_read(
    raw: Seq<char>,
    id: IssueId,
    title: Option<Seq<char>>,
    body: Option<Seq<char>>,
    status: Option<Seq<char>>,
    priority: Option<Seq<char>>,
    size: Option<Seq<char>>,
    changes: ChangesModel,
)
    requires
        is_value(raw),
        text::integer(raw) == Some(id as int),
        valued(
            seq![
                ("--title"@, title),
                ("--body"@, body),
                ("--status"@, status),
                ("--priority"@, priority),
                ("--size"@, size),
            ],
        ),
        title is Some || body is Some || status is Some || priority is Some || size is Some,
        changes.title == title,
        is_body_read(body, changes.body),
        changes.status is Some <==> status is Some,
        status matches Some(word) ==> Status::named(word) == changes.status,
        changes.priority is Some <==> priority is Some,
        priority matches Some(word) ==> Priority::named(word) == changes.priority,
        is_size_read(size, changes.size),
    ensures
        reads_as(
            seq!["set"@, raw] + spelled(
                seq![
                    ("--title"@, title),
                    ("--body"@, body),
                    ("--status"@, status),
                    ("--priority"@, priority),
                    ("--size"@, size),
                ],
            ),
            CommandModel::Change(id, changes),
        ),
{
    let one = seq![raw];
    let o0 = seq![
        ("--title"@, title),
        ("--body"@, body),
        ("--status"@, status),
        ("--priority"@, priority),
        ("--size"@, size),
    ];
    lemma_set_words(raw, id, title, body, status, priority, size, changes);
    let line = seq!["set"@, raw] + spelled(o0);
    assert(line.skip(1) =~= one + spelled(o0));
    lemma_set_globals(raw, title, body, status, priority, size);
    assert(line[0] == "set"@);
    assert(line[0][0] != '-' && line[0].len() > 0) by {
        lemma_verbs();
    }
    lemma_plain_line(line, CommandModel::Change(id, changes));
}

/// Tags as options, one after the other.
pub open spec fn tag_options(names: Seq<Seq<char>>) -> Seq<(Seq<char>, Option<Seq<char>>)> {
    names.map_values(|name: Seq<char>| ("--tag"@, Some(name)))
}

proof fn lemma_tag_options(
    before: Seq<Seq<char>>,
    names: Seq<Seq<char>>,
    rest: Seq<(Seq<char>, Option<Seq<char>>)>,
)
    requires
        lacks(before, "--tag"@),
        lacks(spelled(rest), "--tag"@),
    ensures
        words::values_of(before + spelled(tag_options(names) + rest), "--tag"@) == Ok::<
            Seq<Seq<char>>,
            Seq<char>,
        >(names),
        words::without_values(before + spelled(tag_options(names) + rest), "--tag"@) == before
            + spelled(rest),
    decreases names.len(),
{
    let options = tag_options(names) + rest;
    if names.len() == 0 {
        assert(options =~= rest);
        lemma_lacks_both(before, spelled(rest), "--tag"@);
        lemma_lacking(before + spelled(rest), "--tag"@);
        assert(names =~= Seq::<Seq<char>>::empty());
    } else {
        let fewer = tag_options(names.skip(1)) + rest;
        assert(options.skip(1) =~= fewer);
        assert(options[0] == ("--tag"@, Some(names[0])));
        lemma_first_option(before, options);
        lemma_tag_options(before, names.skip(1), rest);
        assert(seq![names[0]] + names.skip(1) =~= names);
    }
}

/// The options of `new`, in one order.
pub open spec fn new_options(
    body: Option<Seq<char>>,
    status: Option<Seq<char>>,
    priority: Option<Seq<char>>,
    names: Seq<Seq<char>>,
    parent: Option<Seq<char>>,
    size: Option<Seq<char>>,
) -> Seq<(Seq<char>, Option<Seq<char>>)> {
    seq![("--body"@, body), ("--status"@, status), ("--priority"@, priority)] + (tag_options(names)
        + seq![("--parent"@, parent), ("--size"@, size)])
}

/// Where an option of `new` stands among them.
spec fn new_rank(key: Seq<char>) -> int {
    if key == "--body"@ {
        0
    } else if key == "--status"@ {
        1
    } else if key == "--priority"@ {
        2
    } else if key == "--tag"@ {
        3
    } else if key == "--parent"@ {
        4
    } else if key == "--size"@ {
        5
    } else {
        -1
    }
}

/// Whether options are all of `new`, and from a place on.
spec fn from_new(options: Seq<(Seq<char>, Option<Seq<char>>)>, rank: int) -> bool {
    forall|i: int| 0 <= i < options.len() ==> new_rank((#[trigger] options[i]).0) >= rank
}

proof fn lemma_new_ranks()
    ensures
        new_rank("--body"@) == 0,
        new_rank("--status"@) == 1,
        new_rank("--priority"@) == 2,
        new_rank("--tag"@) == 3,
        new_rank("--parent"@) == 4,
        new_rank("--size"@) == 5,
        is_option("--body"@),
        is_option("--status"@),
        is_option("--priority"@),
        is_option("--tag"@),
        is_option("--parent"@),
{
    lemma_names();
}

proof fn lemma_new_lacks(
    options: Seq<(Seq<char>, Option<Seq<char>>)>,
    rank: int,
    key: Seq<char>,
)
    requires
        valued(options),
        from_new(options, rank),
        0 <= new_rank(key) < rank,
        is_option(key),
    ensures
        lacks(spelled(options), key),
{
    assert forall|i: int| 0 <= i < options.len() implies (#[trigger] options[i]).0 != key by {
        assert(new_rank(options[i].0) >= rank);
    }
    lemma_spelled_lacks(options, key);
}

/// Which options stand where in a line of `new`.
#[verifier::spinoff_prover]
#[verifier::rlimit(40)]
proof fn lemma_new_options(
    body: Option<Seq<char>>,
    status: Option<Seq<char>>,
    priority: Option<Seq<char>>,
    names: Seq<Seq<char>>,
    parent: Option<Seq<char>>,
    size: Option<Seq<char>>,
)
    requires
        valued(new_options(body, status, priority, names, parent, size)),
    ensures
        ({
            let last = seq![("--parent"@, parent), ("--size"@, size)];
            let o5 = seq![("--size"@, size)];
            let o3 = tag_options(names) + last;
            let o2 = seq![("--priority"@, priority)] + o3;
            let o1 = seq![("--status"@, status), ("--priority"@, priority)] + o3;
            let o0 = new_options(body, status, priority, names, parent, size);
            &&& lacks(spelled(o1), "--body"@)
            &&& lacks(spelled(o2), "--status"@)
            &&& lacks(spelled(o3), "--priority"@)
            &&& lacks(spelled(last), "--tag"@)
            &&& lacks(spelled(o5), "--parent"@)
            &&& forall|i: int|
                0 <= i < o0.len() ==> {
                    ||| (#[trigger] o0[i]).0 == "--body"@
                    ||| o0[i].0 == "--status"@
                    ||| o0[i].0 == "--priority"@
                    ||| o0[i].0 == "--tag"@
                    ||| o0[i].0 == "--parent"@
                    ||| o0[i].0 == "--size"@
                }
        }),
{
    let last = seq![("--parent"@, parent), ("--size"@, size)];
    let o5 = seq![("--size"@, size)];
    let o3 = tag_options(names) + last;
    let o2 = seq![("--priority"@, priority)] + o3;
    let o1 = seq![("--status"@, status), ("--priority"@, priority)] + o3;
    let o0 = new_options(body, status, priority, names, parent, size);
    assert(o0.skip(1) =~= o1);
    assert(o1.skip(1) =~= o2);
    assert(o2.skip(1) =~= o3);
    lemma_valued_skip(o0);
    lemma_valued_skip(o1);
    lemma_valued_skip(o2);
    let n = names.len() as int;
    assert(last[0] == o3[n]);
    assert(last[1] == o3[n + 1]);
    assert(o5[0] == o3[n + 1]);
    assert(valued(last));
    assert(valued(o5));
    assert(from_new(o3, 3)) by {
        assert forall|i: int| 0 <= i < o3.len() implies new_rank((#[trigger] o3[i]).0) >= 3 by {
            if i < n {
                assert(o3[i] == tag_options(names)[i]);
            } else {
                assert(o3[i] == last[i - n]);
            }
            lemma_new_ranks();
        }
    }
    assert(from_new(o2, 2)) by {
        assert forall|i: int| 0 <= i < o2.len() implies new_rank((#[trigger] o2[i]).0) >= 2 by {
            if i > 0 {
                assert(o2[i] == o3[i - 1]);
            }
            lemma_new_ranks();
        }
    }
    assert(from_new(o1, 1)) by {
        assert forall|i: int| 0 <= i < o1.len() implies new_rank((#[trigger] o1[i]).0) >= 1 by {
            if i > 0 {
                assert(o1[i] == o2[i - 1]);
            }
            lemma_new_ranks();
        }
    }
    assert(from_new(o0, 0)) by {
        assert forall|i: int| 0 <= i < o0.len() implies new_rank((#[trigger] o0[i]).0) >= 0 by {
            if i > 0 {
                assert(o0[i] == o1[i - 1]);
            }
            lemma_new_ranks();
        }
    }
    assert(from_new(last, 4)) by {
        lemma_new_ranks();
    }
    assert(from_new(o5, 5)) by {
        lemma_new_ranks();
    }
    lemma_new_ranks();
    lemma_new_lacks(o1, 1, "--body"@);
    lemma_new_lacks(o2, 2, "--status"@);
    lemma_new_lacks(o3, 3, "--priority"@);
    lemma_new_lacks(last, 4, "--tag"@);
    lemma_new_lacks(o5, 5, "--parent"@);
    assert forall|i: int| 0 <= i < o0.len() implies {
        ||| (#[trigger] o0[i]).0 == "--body"@
        ||| o0[i].0 == "--status"@
        ||| o0[i].0 == "--priority"@
        ||| o0[i].0 == "--tag"@
        ||| o0[i].0 == "--parent"@
        ||| o0[i].0 == "--size"@
    } by {
        assert(new_rank(o0[i].0) >= 0);
    }
}

#[verifier::spinoff_prover]
#[verifier::rlimit(40)]
proof fn lemma_new_words(
    title: Seq<char>,
    body: Option<Seq<char>>,
    status: Option<Seq<char>>,
    priority: Option<Seq<char>>,
    names: Seq<Seq<char>>,
    parent: Option<Seq<char>>,
    size: Option<Seq<char>>,
    new: NewModel,
)
    requires
        is_value(title),
        text::trimmed(title).len() > 0,
        valued(new_options(body, status, priority, names, parent, size)),
        new.title == title,
        is_body_read(body, new.body),
        new.status is Some <==> status is Some,
        status matches Some(word) ==> Status::named(word) == new.status,
        new.priority is Some <==> priority is Some,
        priority matches Some(word) ==> Priority::named(word) == new.priority,
        forall|i: int| 0 <= i < names.len() ==> tag::usable_name(text::trimmed(#[trigger] names[i])),
        new.tags == names.map_values(|w: Seq<char>| text::trimmed(w)),
        new.parent is Some <==> parent is Some,
        parent matches Some(word) ==> new.parent is Some && text::integer(word) == Some(
            new.parent->0 as int,
        ),
        new.size is Some <==> size is Some,
        size matches Some(word) ==> (text::number(word, 255) matches Some(n) && n <= 255
            && new.size == Some(n as u8)),
    ensures
        spells(
            "new"@,
            seq![title] + spelled(new_options(body, status, priority, names, parent, size)),
            CommandModel::New(new),
        ),
{
    let one = seq![title];
    let last = seq![("--parent"@, parent), ("--size"@, size)];
    let o6 = Seq::<(Seq<char>, Option<Seq<char>>)>::empty();
    let o5 = seq![("--size"@, size)];
    let o3 = tag_options(names) + last;
    let o2 = seq![("--priority"@, priority)] + o3;
    let o1 = seq![("--status"@, status), ("--priority"@, priority)] + o3;
    let o0 = new_options(body, status, priority, names, parent, size);
    assert(o0.skip(1) =~= o1);
    assert(o1.skip(1) =~= o2);
    assert(o2.skip(1) =~= o3);
    assert(last.skip(1) =~= o5);
    assert(o5.skip(1) =~= o6);
    lemma_new_options(body, status, priority, names, parent, size);
    lemma_one_lacks(title);
    assert(o0[0] == ("--body"@, body));
    assert(o1[0] == ("--status"@, status));
    assert(o2[0] == ("--priority"@, priority));
    lemma_first_option(one, o0);
    lemma_first_option(one, o1);
    lemma_first_option(one, o2);
    lemma_tag_options(one, names, last);
    lemma_first_option(one, last);
    lemma_first_option(one, o5);
    lemma_tags_read(names);
    assert(one + spelled(o6) =~= one);
    lemma_new_command(one + spelled(o0), new);
    lemma_spelled_out(one + spelled(o0), CommandModel::New(new));
}

/// `new` with a title and any of its options files an Issue with each field that
/// is given, and every Tag.
#[verifier::spinoff_prover]
#[verifier::rlimit(40)]
pub proof fn a_new_line_is_read(
    title: Seq<char>,
    body: Option<Seq<char>>,
    status: Option<Seq<char>>,
    priority: Option<Seq<char>>,
    names: Seq<Seq<char>>,
    parent: Option<Seq<char>>,
    size: Option<Seq<char>>,
    new: NewModel,
)
    requires
        is_value(title),
        text::trimmed(title).len() > 0,
        valued(new_options(body, status, priority, names, parent, size)),
        new.title == title,
        is_body_read(body, new.body),
        new.status is Some <==> status is Some,
        status matches Some(word) ==> Status::named(word) == new.status,
        new.priority is Some <==> priority is Some,
        priority matches Some(word) ==> Priority::named(word) == new.priority,
        forall|i: int| 0 <= i < names.len() ==> tag::usable_name(text::trimmed(#[trigger] names[i])),
        new.tags == names.map_values(|w: Seq<char>| text::trimmed(w)),
        new.parent is Some <==> parent is Some,
        parent matches Some(word) ==> new.parent is Some && text::integer(word) == Some(
            new.parent->0 as int,
        ),
        new.size is Some <==> size is Some,
        size matches Some(word) ==> (text::number(word, 255) matches Some(n) && n <= 255
            && new.size == Some(n as u8)),
    ensures
        reads_as(
            seq!["new"@, title] + spelled(
                new_options(body, status, priority, names, parent, size),
            ),
            CommandModel::New(new),
        ),
{
    let one = seq![title];
    let o0 = new_options(body, status, priority, names, parent, size);
    lemma_new_words(title, body, status, priority, names, parent, size, new);
    lemma_new_options(body, status, priority, names, parent, size);
    let line = seq!["new"@, title] + spelled(o0);
    assert(line.skip(1) =~= one + spelled(o0));
    assert(no_global(line) && line[0][0] != '-' && line[0].len() > 0) by {
        lemma_names();
        lemma_verbs();
        lemma_no_global(seq!["new"@, title], o0);
    }
    lemma_plain_line(line, CommandModel::New(new));
}

/// What `new` reads is what its parts read.
#[verifier::spinoff_prover]
#[verifier::rlimit(40)]
proof fn lemma_new_command(line: Seq<Seq<char>>, new: NewModel)
    requires
        ({
            let past_body = words::without_value(line, "--body"@);
            let past_status = words::without_value(past_body, "--status"@);
            let past_priority = words::without_value(past_status, "--priority"@);
            let past_tags = words::without_values(past_priority, "--tag"@);
            let past_parent = words::without_value(past_tags, "--parent"@);
            let past_size = words::without_value(past_parent, "--size"@);
            &&& args::body_in(line) == Ok::<Option<BodyModel>, Seq<char>>(new.body)
            &&& args::status_in(past_body) == Ok::<Option<Status>, Seq<char>>(new.status)
            &&& args::priority_in(past_status) == Ok::<Option<Priority>, Seq<char>>(new.priority)
            &&& args::new_tags_in(past_priority) == Ok::<Seq<Seq<char>>, Seq<char>>(new.tags)
            &&& args::new_parent_in(past_tags) == Ok::<Option<IssueId>, Seq<char>>(new.parent)
            &&& args::new_size_in(past_parent) == Ok::<Option<u8>, Seq<char>>(new.size)
            &&& past_size == seq![new.title]
            &&& is_value(new.title)
            &&& text::trimmed(new.title).len() > 0
        }),
    ensures
        args::new_command(line) == Ok::<CommandModel, Seq<char>>(CommandModel::New(new)),
{
    lemma_no_stray(seq![new.title]);
}

proof fn lemma_valued_skip(options: Seq<(Seq<char>, Option<Seq<char>>)>)
    requires
        valued(options),
        options.len() > 0,
    ensures
        valued(options.skip(1)),
{
    let rest = options.skip(1);
    assert forall|i: int| 0 <= i < rest.len() implies ((#[trigger] rest[i]).1 matches Some(value)
        ==> is_value(value)) by {
        assert(rest[i] == options[i + 1]);
    }
}

// ---------------------------------------------------------------------------
// Options that go with every command
// ---------------------------------------------------------------------------

/// `--json` behind a line changes nothing but that JSON is printed, and `--color`
/// in front of it nothing but when colours are.
pub proof fn the_global_options_change_only_how_it_is_printed(
    line: Seq<Seq<char>>,
    command: CommandModel,
)
    requires
        no_global(line),
        reads_as(line, command),
    ensures
        args::parsed(line.push("--json"@)) == Ok::<InvocationModel, Seq<char>>(
            InvocationModel { json: true, colour: Colour::Auto, command },
        ),
        args::parsed(seq!["--color"@, "always"@] + line) == Ok::<InvocationModel, Seq<char>>(
            InvocationModel { json: false, colour: Colour::Always, command },
        ),
        args::parsed(seq!["--color"@, "never"@] + line) == Ok::<InvocationModel, Seq<char>>(
            InvocationModel { json: false, colour: Colour::Never, command },
        ),
        args::parsed(seq!["--color"@, "auto"@] + line) == Ok::<InvocationModel, Seq<char>>(
            InvocationModel { json: false, colour: Colour::Auto, command },
        ),
{
    lemma_json_option(line, command);
    lemma_three_colours();
    lemma_coloured(line, command, "always"@, Colour::Always);
    lemma_coloured(line, command, "never"@, Colour::Never);
    lemma_coloured(line, command, "auto"@, Colour::Auto);
}

#[verifier::spinoff_prover]
#[verifier::rlimit(40)]
proof fn lemma_json_option(line: Seq<Seq<char>>, command: CommandModel)
    requires
        lacks(line, "--json"@),
        lacks(line, "--color"@),
        reads_as(line, command),
    ensures
        args::parsed(line.push("--json"@)) == Ok::<InvocationModel, Seq<char>>(
            InvocationModel { json: true, colour: Colour::Auto, command },
        ),
{
    reveal(reads_as);
    lemma_lacking(line, "--json"@);
    lemma_lacking(line, "--color"@);
    let long = line.push("--json"@);
    assert forall|i: int| 0 <= i < line.len() implies #[trigger] long[i] != "--json"@ by {
        assert(long[i] == line[i]);
    }
    lemma_place(long, "--json"@, line.len() as int);
    assert(long.remove(line.len() as int) =~= line);
}

proof fn lemma_three_colours()
    ensures
        "always"@.len() == 6 && "always"@[0] == 'a',
        "never"@.len() == 5 && "never"@[0] == 'n',
        "auto"@.len() == 4 && "auto"@[0] == 'a',
{
    reveal_strlit("always");
    reveal_strlit("never");
    reveal_strlit("auto");
}

proof fn lemma_colour_words(line: Seq<Seq<char>>, word: Seq<char>)
    requires
        lacks(line, "--json"@),
        is_value(word),
    ensures
        !words::has_word(seq!["--color"@, word] + line, "--json"@),
        words::without_word(seq!["--color"@, word] + line, "--json"@) == seq!["--color"@, word]
            + line,
        words::value_of(seq!["--color"@, word] + line, "--color"@) == Ok::<
            Option<Seq<char>>,
            Seq<char>,
        >(Some(word)),
        words::without_value(seq!["--color"@, word] + line, "--color"@) == line,
{
    let none = Seq::<Seq<char>>::empty();
    assert(lacks(seq!["--color"@, word], "--json"@)) by {
        lemma_names();
    }
    lemma_lacks_both(seq!["--color"@, word], line, "--json"@);
    lemma_lacking(seq!["--color"@, word] + line, "--json"@);
    an_option_has_the_word_behind_it(none, "--color"@, word, line);
    assert(none + seq!["--color"@, word] + line =~= seq!["--color"@, word] + line);
    assert(none + line =~= line);
}

#[verifier::spinoff_prover]
#[verifier::rlimit(40)]
proof fn lemma_coloured(
    line: Seq<Seq<char>>,
    command: CommandModel,
    word: Seq<char>,
    colour: Colour,
)
    requires
        lacks(line, "--json"@),
        lacks(line, "--color"@),
        reads_as(line, command),
        word == "always"@ && colour == Colour::Always || word == "never"@ && colour == Colour::Never
            || word == "auto"@ && colour == Colour::Auto,
    ensures
        args::parsed(seq!["--color"@, word] + line) == Ok::<InvocationModel, Seq<char>>(
            InvocationModel { json: false, colour, command },
        ),
{
    reveal(reads_as);
    lemma_three_colours();
    lemma_lacking(line, "--json"@);
    lemma_lacking(line, "--color"@);
    lemma_colour_words(line, word);
}

/// `-h` or `--help` anywhere asks for help, whatever else the line holds.
pub proof fn help_is_given_whatever_else_is_asked(line: Seq<Seq<char>>, at: int)
    requires
        0 <= at < line.len(),
        line[at] == "-h"@ || line[at] == "--help"@,
        lacks(line, "--json"@),
        lacks(line, "--color"@),
    ensures
        reads_as(line, CommandModel::Help),
{
    reveal(reads_as);
    lemma_lacking(line, "--json"@);
    lemma_lacking(line, "--color"@);
    lemma_has(line, line[at], at);
}

proof fn lemma_has(line: Seq<Seq<char>>, word: Seq<char>, at: int)
    requires
        0 <= at < line.len(),
        line[at] == word,
    ensures
        words::has_word(line, word),
    decreases at,
{
    if at > 0 && line[0] != word {
        assert(line.skip(1)[at - 1] == word);
        lemma_has(line.skip(1), word, at - 1);
    }
}

// ---------------------------------------------------------------------------
// Lines that are no commands
// ---------------------------------------------------------------------------

/// Whether a line is no command, and why.
#[verifier::opaque]
pub open spec fn is_told(line: Seq<Seq<char>>, why: Seq<char>) -> bool {
    args::parsed(line) == Err::<InvocationModel, Seq<char>>(why)
}

/// What a line without options comes to is what its verb makes of the rest.
#[verifier::spinoff_prover]
#[verifier::rlimit(40)]
proof fn lemma_verb_decides(line: Seq<Seq<char>>)
    requires
        line.len() > 0,
        line[0].len() > 0,
        line[0][0] != '-',
        no_global(line),
    ensures
        args::parsed(line) == match args::command_of(line[0], line.skip(1)) {
            Err(why) => Err::<InvocationModel, Seq<char>>(why),
            Ok(command) => Ok(InvocationModel { json: false, colour: Colour::Auto, command }),
        },
{
    lemma_names();
    lemma_lacking(line, "--json"@);
    lemma_lacking(line, "--color"@);
    lemma_lacking(line, "-h"@);
    lemma_lacking(line, "--help"@);
    lemma_lacking(line, "-V"@);
    lemma_lacking(line, "--version"@);
    if text::starts_with(line[0], "-"@) {
        assert(line[0].take(1)[0] == line[0][0]);
    }
}

/// A verb that is none of the nine is told.
#[verifier::spinoff_prover]
#[verifier::rlimit(40)]
pub proof fn an_unknown_verb_is_told(verb: Seq<char>, rest: Seq<Seq<char>>)
    requires
        verb.len() > 0,
        verb[0] != '-',
        forall|i: int| 0 <= i < rest.len() ==> is_value(#[trigger] rest[i]),
        verb != "list"@,
        verb != "show"@,
        verb != "new"@,
        verb != "set"@,
        verb != "rm"@,
        verb != "tags"@,
        verb != "tag"@,
        verb != "sub"@,
        verb != "help"@,
    ensures
        is_told(
            seq![verb] + rest,
            "no such command: "@ + verb + ". Try `issue --help`"@,
        ),
{
    reveal(is_told);
    let line = seq![verb] + rest;
    assert forall|i: int| 0 <= i < line.len() implies is_value(#[trigger] line[i]) by {
        if i > 0 {
            assert(line[i] == rest[i - 1]);
        }
    }
    lemma_values_have_no_global(line);
    lemma_verb_decides(line);
}

#[verifier::spinoff_prover]
#[verifier::rlimit(40)]
proof fn lemma_show_is_told(rest: Seq<Seq<char>>, why: Seq<char>)
    requires
        forall|i: int| 0 <= i < rest.len() ==> is_value(#[trigger] rest[i]),
        args::one_id_in(rest, "show"@) == Err::<IssueId, Seq<char>>(why),
    ensures
        is_told(seq!["show"@] + rest, why),
{
    reveal(is_told);
    let line = seq!["show"@] + rest;
    assert("show"@.len() == 4 && "show"@[0] == 's') by {
        reveal_strlit("show");
    }
    assert forall|i: int| 0 <= i < line.len() implies is_value(#[trigger] line[i]) by {
        if i > 0 {
            assert(line[i] == rest[i - 1]);
        }
    }
    lemma_values_have_no_global(line);
    lemma_verb_decides(line);
    assert(line.skip(1) =~= rest);
    lemma_dispatch(rest);
}

/// `show` takes one id: fewer words or more are told, and so is a word that is no
/// id.
pub proof fn a_line_with_the_wrong_words_is_told(rest: Seq<Seq<char>>)
    requires
        forall|i: int| 0 <= i < rest.len() ==> is_value(#[trigger] rest[i]),
    ensures
        rest.len() != 1 ==> is_told(
            seq!["show"@] + rest,
            "show"@ + " wants "@ + text::decimal(1) + " argument(s), got "@ + text::decimal(
                rest.len() as int,
            ) + ". Try `issue --help`"@,
        ),
        rest.len() == 1 && text::integer(rest[0]) is None ==> is_told(
            seq!["show"@] + rest,
            "not an issue id: "@ + rest[0],
        ),
{
    lemma_no_stray(rest);
    if rest.len() != 1 {
        lemma_show_is_told(
            rest,
            "show"@ + " wants "@ + text::decimal(1) + " argument(s), got "@ + text::decimal(
                rest.len() as int,
            ) + ". Try `issue --help`"@,
        );
    } else if text::integer(rest[0]) is None {
        lemma_show_is_told(rest, "not an issue id: "@ + rest[0]);
    }
}

#[verifier::spinoff_prover]
#[verifier::rlimit(40)]
proof fn lemma_directed(line: Seq<Seq<char>>)
    ensures
        args::command_of("tag"@, line) == args::tag_command(line),
        args::command_of("sub"@, line) == args::sub_command(line),
{
    lemma_verbs();
}

proof fn lemma_no_direction(way: Seq<char>, raw: Seq<char>, verb: Seq<char>)
    requires
        way.len() > 0,
        way[0] != '-',
        way != "add"@,
        way != "rm"@,
    ensures
        args::adding_in(seq![way, raw], verb) == Err::<bool, Seq<char>>(
            verb + " takes add or rm, not "@ + way,
        ),
{
    reveal_strlit("-");
    if text::starts_with(way, "-"@) {
        assert(way.take(1)[0] == way[0]);
    }
}

#[verifier::spinoff_prover]
#[verifier::rlimit(40)]
proof fn lemma_told(verb: Seq<char>, way: Seq<char>, raw: Seq<char>)
    requires
        verb == "tag"@ || verb == "sub"@,
        is_value(way),
        is_value(raw),
        way.len() > 0,
        way[0] != '-',
        way != "add"@,
        way != "rm"@,
    ensures
        is_told(seq![verb, way, raw], verb + " takes add or rm, not "@ + way),
{
    reveal(is_told);
    let line = seq![verb, way, raw];
    assert(is_value(verb) && verb.len() > 0 && verb[0] != '-') by {
        lemma_verbs();
    }
    lemma_values_have_no_global(line);
    lemma_verb_decides(line);
    assert(line.skip(1) =~= seq![way, raw]);
    lemma_no_direction(way, raw, verb);
    lemma_directed(seq![way, raw]);
}

/// `tag` and `sub` take `add` or `rm`.
pub proof fn a_line_without_a_direction_is_told(way: Seq<char>, raw: Seq<char>)
    requires
        is_value(way),
        is_value(raw),
        way.len() > 0,
        way[0] != '-',
        way != "add"@,
        way != "rm"@,
    ensures
        is_told(seq!["tag"@, way, raw], "tag"@ + " takes add or rm, not "@ + way),
        is_told(seq!["sub"@, way, raw], "sub"@ + " takes add or rm, not "@ + way),
{
    lemma_told("tag"@, way, raw);
    lemma_told("sub"@, way, raw);
}

/// Before anything else of a line is read, colours go by the word behind the
/// first `--color`, or behind the sign where it is spelled with one, and are left
/// to the terminal without it.
pub proof fn colours_go_by_the_first_option(
    before: Seq<Seq<char>>,
    word: Seq<char>,
    after: Seq<Seq<char>>,
)
    requires
        forall|i: int|
            0 <= i < before.len() ==> #[trigger] before[i] != "--color"@ && !text::starts_with(
                before[i],
                "--color="@,
            ),
    ensures
        args::colour_in(before) == Colour::Auto,
        args::colour_in(before + seq!["--color"@, word] + after) == if word == "always"@ {
            Colour::Always
        } else if word == "never"@ {
            Colour::Never
        } else {
            Colour::Auto
        },
        args::colour_in(before + seq!["--color="@ + word] + after) == if word == "always"@ {
            Colour::Always
        } else if word == "never"@ {
            Colour::Never
        } else {
            Colour::Auto
        },
    decreases before.len(),
{
    reveal_strlit("--color");
    reveal_strlit("--color=");
    let apart = before + seq!["--color"@, word] + after;
    let joined = before + seq!["--color="@ + word] + after;
    if before.len() == 0 {
        assert(apart[0] == "--color"@ && apart[1] == word);
        assert(joined[0] == "--color="@ + word);
        assert(("--color="@ + word).take(8) =~= "--color="@);
        assert(("--color="@ + word).skip(8) =~= word);
    } else {
        let rest = before.skip(1);
        assert forall|i: int| 0 <= i < rest.len() implies #[trigger] rest[i] != "--color"@
            && !text::starts_with(rest[i], "--color="@) by {
            assert(rest[i] == before[i + 1]);
        }
        colours_go_by_the_first_option(rest, word, after);
        assert(before[0] != "--color"@);
        assert(apart[0] == before[0] && joined[0] == before[0]);
        assert(apart.skip(1) =~= rest + seq!["--color"@, word] + after);
        assert(joined.skip(1) =~= rest + seq!["--color="@ + word] + after);
    }
}

} // verus!
