//! Reading a command line.

use issue_tracker::cli::args::{colour_of, parse, Body, Colour, Command, Invocation};
use issue_tracker::cli::Failure;
use issue_tracker::domain::{ParentFilter, Status};

fn parse_words(line: &str) -> Result<Invocation, Failure> {
    parse(line.split_whitespace().map(String::from).collect())
}

fn command(line: &str) -> Command {
    parse_words(line).expect(line).command
}

fn usage(line: &str) -> String {
    match parse_words(line) {
        Err(Failure::Usage(message)) => message,
        other => panic!("{line} should have been a usage error, got {other:?}"),
    }
}

#[test]
fn no_arguments_shows_the_help() {
    assert_eq!(command(""), Command::Help);
    assert_eq!(command("--help"), Command::Help);
    assert_eq!(command("help"), Command::Help);
}

#[test]
fn global_flags_are_read_on_either_side_of_the_command() {
    assert!(parse_words("--json list").unwrap().json);
    assert!(parse_words("list --json").unwrap().json);
    assert_eq!(
        parse_words("list --color never").unwrap().colour,
        Colour::Never
    );
    assert_eq!(parse_words("list").unwrap().colour, Colour::Auto);
    assert!(usage("list --color mauve").contains("mauve"));
}

#[test]
fn list_filters_are_parsed_into_domain_values() {
    let Command::List(filters) = command("list --status doing --tag Bug --search theme") else {
        panic!("expected a list");
    };
    // Case-folded on the way in, so the request carries the canonical name.
    assert_eq!(filters.status, Some(Status::Doing));
    assert_eq!(filters.tag, Some("bug".parse().unwrap()));
    assert_eq!(filters.search.as_deref(), Some("theme"));
    assert_eq!(filters.parent, None);
}

#[test]
fn parent_takes_an_id_or_the_word_none() {
    let Command::List(filters) = command("list --parent 7") else {
        panic!()
    };
    assert_eq!(filters.parent, Some(ParentFilter::Under(7)));

    let Command::List(filters) = command("list --parent none") else {
        panic!()
    };
    assert_eq!(filters.parent, Some(ParentFilter::Unparented));

    assert!(usage("list --parent all").contains("all"));
}

#[test]
fn an_unknown_option_is_refused_rather_than_ignored() {
    // The whole reason `rest` exists: pico-args is content to leave an
    // option it was never asked about lying in the remainder.
    assert!(usage("set 7 --statuss Done").contains("--statuss"));
    assert!(usage("list --bogus").contains("--bogus"));
    assert!(usage("show 7 --force").contains("--force"));
}

#[test]
fn an_unknown_status_or_priority_is_a_usage_error_not_a_round_trip() {
    assert!(usage("list --status Closed").contains("Closed"));
    assert!(usage("new t --priority Critical").contains("Critical"));
}

#[test]
fn setting_nothing_is_refused() {
    // The API would accept the empty patch and report success.
    assert!(usage("set 7").contains("nothing to set"));
}

#[test]
fn set_changes_only_the_fields_it_names() {
    let Command::Change(id, changes) = command("set 7 --status done") else {
        panic!()
    };
    assert_eq!(id, 7);
    assert_eq!(changes.status, Some(Status::Done));
    assert_eq!(changes.title, None);
    assert_eq!(changes.body, None);
}

#[test]
fn a_body_may_come_from_stdin() {
    let Command::New(new) = command("new title --body -") else {
        panic!()
    };
    assert_eq!(new.body, Some(Body::Stdin));

    let Command::New(new) = parse(
        ["new", "title", "--body", "some prose"]
            .iter()
            .map(|word| word.to_string())
            .collect(),
    )
    .unwrap()
    .command
    else {
        panic!()
    };
    assert_eq!(new.body, Some(Body::Text("some prose".into())));
}

#[test]
fn new_takes_repeatable_tags_but_set_takes_none() {
    let Command::New(new) = command("new title --tag bug --tag ui") else {
        panic!()
    };
    assert_eq!(new.tags.len(), 2);
    // `set --tag` would mean read-modify-write; `issue tag` exists instead.
    assert!(usage("set 7 --tag bug").contains("--tag"));
}

#[test]
fn a_blank_title_is_refused_before_the_request() {
    assert!(usage("new").contains("wants 1"));
    assert!(parse(["new", "   "].iter().map(|word| word.to_string()).collect()).is_err());
}

#[test]
fn rm_needs_force_only_as_a_flag_here() {
    assert_eq!(
        command("rm 7"),
        Command::Remove {
            id: 7,
            force: false
        }
    );
    assert_eq!(
        command("rm 7 --force"),
        Command::Remove { id: 7, force: true }
    );
    assert_eq!(command("rm 7 -f"), Command::Remove { id: 7, force: true });
}

#[test]
fn tag_and_sub_take_several_at_once() {
    assert_eq!(
        command("tag add 7 bug ui"),
        Command::Tag {
            id: 7,
            names: vec!["bug".parse().unwrap(), "ui".parse().unwrap()],
            add: true
        }
    );
    assert_eq!(
        command("sub rm 7 12 13"),
        Command::Sub {
            id: 7,
            children: vec![12, 13],
            add: false
        }
    );
    assert!(usage("tag 7 bug").contains("add or rm"));
    assert!(usage("tag toggle 7 bug").contains("toggle"));
}

#[test]
fn a_non_numeric_id_is_caught_here() {
    assert!(usage("show seven").contains("seven"));
    assert!(usage("sub add 7 twelve").contains("twelve"));
}

#[test]
fn an_unknown_command_names_itself() {
    // `close` in particular: the glossary rules the word out, so the
    // suggestion has to be the help rather than a silent alias.
    assert!(usage("close 7").contains("close"));
}

#[test]
fn too_many_positionals_are_refused() {
    assert!(usage("show 7 8").contains("wants 1"));
    assert!(usage("tags extra").contains("wants 0"));
}

#[test]
fn colour_alone_is_read_whatever_else_is_wrong() {
    let words = |line: &str| -> Vec<String> {
        line.split_whitespace().map(String::from).collect()
    };
    assert_eq!(colour_of(&words("bogus --color always")), Colour::Always);
    assert_eq!(colour_of(&words("list --color never")), Colour::Never);
    assert_eq!(colour_of(&words("list --color mauve")), Colour::Auto);
    assert_eq!(colour_of(&words("list")), Colour::Auto);
}

#[test]
fn sizes_are_numbers_and_only_set_may_clear_one() {
    let Command::Change(_, changes) = command("set 7 --size none") else {
        panic!()
    };
    assert_eq!(changes.size, Some(None));
    let Command::Change(_, changes) = command("set 7 --size 8") else {
        panic!()
    };
    assert_eq!(changes.size, Some(Some(8)));
    let Command::New(new) = command("new t --size 255") else {
        panic!()
    };
    assert_eq!(new.size, Some(255));
    assert!(usage("new t --size none").contains("none"));
    assert!(usage("set 7 --size 256").contains("256"));
}

#[test]
fn the_version_is_asked_for_either_way() {
    assert_eq!(command("--version"), Command::Version);
    assert_eq!(command("-V"), Command::Version);
    assert_eq!(command("-h list"), Command::Help);
}

#[test]
fn an_option_without_its_value_is_refused() {
    assert!(parse_words("list --status").is_err());
    assert!(parse_words("set 7 --title").is_err());
}
