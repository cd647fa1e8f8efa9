//! Which colour a Tag has.

use issue_tracker::domain::Tag;
use issue_tracker::ui::tag_colour::fnv1a;

/// How many colours there are to choose from.
const PALETTE: usize = 22;

fn colour_for(tag: &Tag) -> usize {
    issue_tracker::ui::tag_colour::colour_for(tag, PALETTE)
}

fn tag(name: &str) -> Tag {
    name.parse().expect("valid tag")
}

#[test]
fn case_variants_share_a_colour() {
    assert_eq!(colour_for(&tag("Bug")), colour_for(&tag("bug")));
}

#[test]
fn the_same_name_always_lands_on_the_same_colour() {
    assert_eq!(colour_for(&tag("release")), colour_for(&tag("release")));
}

#[test]
fn the_palette_is_actually_spread_over() {
    // Not a distribution proof — just enough to catch a hash that has
    // collapsed to a constant, which would paint every Tag alike.
    let names = ["bug", "ui", "docs", "release", "perf", "flaky", "spike"];
    let distinct: std::collections::HashSet<_> =
        names.iter().map(|name| colour_for(&tag(name))).collect();
    assert!(distinct.len() > 1, "every Tag came out the same colour");
}

#[test]
fn the_hash_is_fnv_1a() {
    assert_eq!(fnv1a(b""), 0xcbf2_9ce4_8422_2325);
    assert_eq!(fnv1a(b"a"), 0xaf63_dc4c_8601_ec8c);
    assert_eq!(fnv1a(b"foobar"), 0x8594_4171_f739_67e8);
}
