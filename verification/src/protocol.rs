//! The two ends of the API agree: what a client addresses is what the server
//! routes, and what it asks for is what the server reads.

use vstd::prelude::*;
use vstd::view::View as _;

use crate::api::http;
use crate::api::http::ResponseModel;
use crate::api::routes;
use crate::api::routes::RouteModel;
use crate::client;
use crate::client::{ClientError, Reply};
use crate::domain::kinds;
use crate::domain::kinds::IssueId;
use crate::domain::narrowing::{NarrowingModel, ParentFilter};
use crate::domain::tag;
use crate::domain::view::View;
use crate::operations;
use crate::percent;
use crate::text;

verus! {

/// Whether a character means nothing special in a target.
pub open spec fn is_plain(c: char) -> bool {
    c < '\u{80}' && c != '%' && c != '?' && c != '&' && c != '=' && c != '+'
}

/// Whether every character of a text means nothing special in a target.
pub open spec fn all_plain(s: Seq<char>) -> bool {
    forall|i: int| 0 <= i < s.len() ==> is_plain(#[trigger] s[i])
}

proof fn lemma_digits_are_plain(n: nat)
    ensures
        text::digits(n).len() > 0,
        forall|i: int|
            0 <= i < text::digits(n).len() ==> text::is_digit(#[trigger] text::digits(n)[i]),
    decreases n,
{
    if n >= 10 {
        lemma_digits_are_plain(n / 10);
        let head = text::digits(n / 10);
        assert forall|i: int| 0 <= i < text::digits(n).len() implies text::is_digit(
            #[trigger] text::digits(n)[i],
        ) by {
            if i < head.len() {
                assert(text::digits(n)[i] == head[i]);
            }
        }
    }
}

proof fn lemma_decimal_is_plain(i: int)
    ensures
        text::decimal(i).len() > 0,
        all_plain(text::decimal(i)),
        forall|k: int| 0 <= k < text::decimal(i).len() ==> #[trigger] text::decimal(i)[k] != '/',
{
    let n = if i < 0 {
        (-i) as nat
    } else {
        i as nat
    };
    lemma_digits_are_plain(n);
    let s = text::decimal(i);
    assert forall|k: int| 0 <= k < s.len() implies is_plain(#[trigger] s[k]) && s[k] != '/' by {
        if i < 0 {
            if k > 0 {
                assert(s[k] == text::digits(n)[k - 1]);
            }
        } else {
            assert(s[k] == text::digits(n)[k]);
        }
    }
}

proof fn lemma_plain_joined(a: Seq<char>, b: Seq<char>)
    requires
        all_plain(a),
        all_plain(b),
    ensures
        all_plain(a + b),
{
    assert forall|i: int| 0 <= i < (a + b).len() implies is_plain(#[trigger] (a + b)[i]) by {
        if i < a.len() {
            assert((a + b)[i] == a[i]);
        } else {
            assert((a + b)[i] == b[i - a.len()]);
        }
    }
}

/// A target with no query is its path, with what was encoded at its end.
proof fn lemma_path_is_read(prefix: Seq<char>, raw: Seq<char>)
    requires
        all_plain(prefix),
    ensures
        http::path_of(prefix + percent::encoded(raw, true)) == prefix + raw,
{
    let target = prefix + percent::encoded(raw, true);
    percent::lemma_encoded_bytes(raw, true);
    assert forall|i: int| 0 <= i < target.len() implies #[trigger] target[i] != '?' by {
        if i < prefix.len() {
            assert(target[i] == prefix[i]);
        } else {
            assert(target[i] == percent::encoded(raw, true)[i - prefix.len()]);
        }
    }
    text::lemma_first_index_is(target, '?', target.len() as int);
    assert(text::before_first(target, '?') =~= target);
    assert(text::is_ascii_text(prefix));
    percent::lemma_decoding_behind_a_prefix(prefix, raw, true);
}

/// A plain target is its own path.
proof fn lemma_plain_path_is_read(path: Seq<char>)
    requires
        all_plain(path),
    ensures
        http::path_of(path) == path,
{
    let none = Seq::<char>::empty();
    lemma_path_is_read(path, none);
    assert(vstd::utf8::encode_utf8(none) =~= Seq::<u8>::empty());
    assert(percent::encoded(none, true) =~= none);
    assert(path + none =~= path);
}

/// What stands behind `/issues/` and an id is read as that id and what follows.
proof fn lemma_issue_prefix(id: IssueId, tail: Seq<char>)
    requires
        tail.len() > 0 ==> tail[0] == '/',
    ensures
        ({
            let path = "/issues/"@ + text::decimal(id as int) + tail;
            let rest = text::decimal(id as int) + tail;
            &&& path != "/issues"@
            &&& path != "/tags"@
            &&& routes::stripped(path, "/issues/"@) == Some(rest)
            &&& text::first_index(rest, '/') == text::decimal(id as int).len()
            &&& text::before_first(rest, '/') == text::decimal(id as int)
            &&& text::integer(text::before_first(rest, '/')) == Some(id as int)
            &&& tail.len() > 0 ==> text::after_first(rest, '/') == tail.skip(1)
        }),
{
    reveal_strlit("/issues/");
    reveal_strlit("/issues");
    reveal_strlit("/tags");
    let number = text::decimal(id as int);
    let path = "/issues/"@ + number + tail;
    let rest = number + tail;
    lemma_decimal_is_plain(id as int);
    assert(path.len() >= 9);
    assert(path.take(8) =~= "/issues/"@);
    assert(path.skip(8) =~= rest);
    assert forall|i: int| 0 <= i < number.len() implies #[trigger] rest[i] != '/' by {
        assert(rest[i] == number[i]);
    }
    if tail.len() > 0 {
        assert(rest[number.len() as int] == tail[0]);
    }
    text::lemma_first_index_is(rest, '/', number.len() as int);
    assert(text::before_first(rest, '/') =~= number);
    text::a_written_number_reads_back(id);
    if tail.len() > 0 {
        assert(text::after_first(rest, '/') =~= tail.skip(1));
    }
}

/// A text that begins with a prefix is that prefix and what follows.
proof fn lemma_stripped(prefix: Seq<char>, rest: Seq<char>)
    ensures
        routes::stripped(prefix + rest, prefix) == Some(rest),
{
    assert((prefix + rest).take(prefix.len() as int) =~= prefix);
    assert((prefix + rest).skip(prefix.len() as int) =~= rest);
}

/// The fixed words of the paths mean nothing special in a target.
proof fn lemma_words()
    ensures
        all_plain("/issues/"@),
        all_plain("/tags/"@),
        all_plain("/sub-issues/"@),
        "/tags/"@ == seq!['/'] + "tags/"@,
        "/sub-issues/"@ == seq!['/'] + "sub-issues/"@,
        "tags/"@.len() > 0 && "tags/"@[0] == 't',
        "sub-issues/"@.len() > 0 && "sub-issues/"@[0] == 's',
{
    reveal_strlit("/issues/");
    reveal_strlit("/tags/");
    reveal_strlit("tags/");
    reveal_strlit("/sub-issues/");
    reveal_strlit("sub-issues/");
    assert("/tags/"@ =~= seq!['/'] + "tags/"@);
    assert("/sub-issues/"@ =~= seq!['/'] + "sub-issues/"@);
}

/// The path a client gives an Issue is routed to that Issue.
pub proof fn an_issue_path_addresses_its_issue(id: IssueId)
    ensures
        routes::routed(http::path_of(operations::issue_path(id))) == Some(RouteModel::Issue(id)),
{
    reveal_strlit("/issues/");
    let path = operations::issue_path(id);
    lemma_decimal_is_plain(id as int);
    lemma_plain_joined("/issues/"@, text::decimal(id as int));
    lemma_plain_path_is_read(path);
    lemma_issue_prefix(id, Seq::<char>::empty());
    assert(path + Seq::<char>::empty() =~= path);
    assert(text::decimal(id as int) + Seq::<char>::empty() =~= text::decimal(id as int));
}

/// The path a client gives a Tag is routed to that very Tag of that Issue,
/// whatever characters its name holds.
pub proof fn a_tag_path_addresses_its_tag(id: IssueId, name: Seq<char>)
    requires
        name.len() > 0,
    ensures
        routes::routed(http::path_of(operations::tag_path_text(id, name))) == Some(
            RouteModel::IssueTag(id, name),
        ),
{
    let number = text::decimal(id as int);
    let prefix = "/issues/"@ + number + "/tags/"@;
    lemma_words();
    lemma_decimal_is_plain(id as int);
    lemma_plain_joined("/issues/"@, number);
    lemma_plain_joined("/issues/"@ + number, "/tags/"@);
    lemma_path_is_read(prefix, name);
    let tail = "/tags/"@ + name;
    lemma_issue_prefix(id, tail);
    assert(prefix + name =~= "/issues/"@ + number + tail);
    let within = "tags/"@ + name;
    assert(tail.skip(1) =~= within);
    lemma_stripped("tags/"@, name);
    assert(!text::starts_with(within, "sub-issues/"@)) by {
        if text::starts_with(within, "sub-issues/"@) {
            assert(within.take("sub-issues/"@.len() as int)[0] == "sub-issues/"@[0]);
            assert(within[0] == "tags/"@[0]);
        }
    }
    assert((number + tail).len() > number.len());
}

proof fn lemma_sub_issue_path_is_plain(parent: IssueId, child: IssueId)
    ensures
        http::path_of(operations::sub_issue_path_text(parent, child))
            == operations::sub_issue_path_text(parent, child),
{
    let number = text::decimal(parent as int);
    let last = text::decimal(child as int);
    lemma_words();
    lemma_decimal_is_plain(parent as int);
    lemma_decimal_is_plain(child as int);
    lemma_plain_joined("/issues/"@, number);
    lemma_plain_joined("/issues/"@ + number, "/sub-issues/"@);
    lemma_plain_joined("/issues/"@ + number + "/sub-issues/"@, last);
    lemma_plain_path_is_read(operations::sub_issue_path_text(parent, child));
}

proof fn lemma_sub_issue_is_routed(parent: IssueId, child: IssueId)
    ensures
        routes::routed_within(parent, "sub-issues/"@ + text::decimal(child as int)) == Some(
            RouteModel::IssueSubIssue(parent, child),
        ),
{
    lemma_stripped("sub-issues/"@, text::decimal(child as int));
    text::a_written_number_reads_back(child);
}

/// The path a client gives a sub-issue is routed to that child of that parent.
pub proof fn a_sub_issue_path_addresses_its_child(parent: IssueId, child: IssueId)
    ensures
        routes::routed(http::path_of(operations::sub_issue_path_text(parent, child))) == Some(
            RouteModel::IssueSubIssue(parent, child),
        ),
{
    let number = text::decimal(parent as int);
    let last = text::decimal(child as int);
    let path = operations::sub_issue_path_text(parent, child);
    lemma_sub_issue_path_is_plain(parent, child);
    lemma_words();
    let tail = "/sub-issues/"@ + last;
    assert(path =~= "/issues/"@ + number + tail);
    assert(tail[0] == '/');
    lemma_issue_prefix(parent, tail);
    assert(tail.skip(1) =~= "sub-issues/"@ + last);
    lemma_sub_issue_is_routed(parent, child);
    assert((number + tail).len() > number.len());
}

/// The two plain endpoints are routed as they are spelled.
pub proof fn the_collections_are_addressed_as_spelled()
    ensures
        routes::routed(http::path_of("/issues"@)) == Some(RouteModel::Issues),
        routes::routed(http::path_of("/tags"@)) == Some(RouteModel::Tags),
{
    reveal_strlit("/issues");
    reveal_strlit("/tags");
    lemma_plain_path_is_read("/issues"@);
    lemma_plain_path_is_read("/tags"@);
}

// ---------------------------------------------------------------------------
// Listings
// ---------------------------------------------------------------------------

/// Whether a text is free of a character.
pub open spec fn is_free_of(s: Seq<char>, c: char) -> bool {
    forall|i: int| 0 <= i < s.len() ==> #[trigger] s[i] != c
}

proof fn lemma_free_joined(a: Seq<char>, b: Seq<char>, c: char)
    requires
        is_free_of(a, c),
        is_free_of(b, c),
    ensures
        is_free_of(a + b, c),
{
    assert forall|i: int| 0 <= i < (a + b).len() implies #[trigger] (a + b)[i] != c by {
        if i < a.len() {
            assert((a + b)[i] == a[i]);
        } else {
            assert((a + b)[i] == b[i - a.len()]);
        }
    }
}

/// Cutting at the first separator gives back what was put before and after it.
proof fn lemma_cut(a: Seq<char>, c: char, b: Seq<char>)
    requires
        is_free_of(a, c),
    ensures
        text::first_index(a + seq![c] + b, c) == a.len(),
        text::before_first(a + seq![c] + b, c) == a,
        text::after_first(a + seq![c] + b, c) == b,
{
    let all = a + seq![c] + b;
    assert forall|i: int| 0 <= i < a.len() implies #[trigger] all[i] != c by {
        assert(all[i] == a[i]);
    }
    assert(all[a.len() as int] == c);
    text::lemma_first_index_is(all, c, a.len() as int);
    assert(text::before_first(all, c) =~= a);
    assert(text::after_first(all, c) =~= b);
}

/// Joining from the front.
proof fn lemma_joined_from_the_front(parts: Seq<Seq<char>>, between: Seq<char>)
    requires
        parts.len() > 1,
    ensures
        text::joined(parts, between) == parts[0] + between + text::joined(parts.skip(1), between),
    decreases parts.len(),
{
    let rest = parts.skip(1);
    if parts.len() == 2 {
        reveal_with_fuel(text::joined, 3);
        assert(parts.drop_last()[0] == parts[0]);
        assert(rest[0] == parts[1]);
    } else {
        lemma_joined_from_the_front(parts.drop_last(), between);
        assert(parts.drop_last().skip(1) =~= rest.drop_last());
        assert(rest.last() == parts.last());
        let head = parts[0] + between;
        let middle = text::joined(rest.drop_last(), between);
        assert(head + middle + between + parts.last() =~= head + (middle + between
            + parts.last()));
    }
}

/// What is joined by ampersands is cut into the same parts again.
proof fn lemma_cutting_what_was_joined(parts: Seq<Seq<char>>)
    requires
        parts.len() > 0,
        forall|i: int| 0 <= i < parts.len() ==> is_free_of(#[trigger] parts[i], '&'),
    ensures
        text::pieces(text::joined(parts, "&"@), '&') == parts,
    decreases parts.len(),
{
    reveal_strlit("&");
    assert("&"@ =~= seq!['&']);
    if parts.len() == 1 {
        text::lemma_first_index_is(parts[0], '&', parts[0].len() as int);
        assert(text::pieces(parts[0], '&') =~= parts);
    } else {
        let rest = parts.skip(1);
        lemma_joined_from_the_front(parts, "&"@);
        assert forall|i: int| 0 <= i < rest.len() implies is_free_of(#[trigger] rest[i], '&') by {
            assert(rest[i] == parts[i + 1]);
        }
        lemma_cutting_what_was_joined(rest);
        lemma_cut(parts[0], '&', text::joined(rest, "&"@));
        let all = text::joined(parts, "&"@);
        assert(all.len() > parts[0].len());
        assert(text::pieces(all, '&') =~= parts);
    }
}

/// A plain text decodes to itself in a query.
proof fn lemma_plain_part_is_read(s: Seq<char>)
    requires
        all_plain(s),
    ensures
        percent::decoded_plus(s) == s,
{
    let none = Seq::<char>::empty();
    assert(vstd::utf8::encode_utf8(none) =~= Seq::<u8>::empty());
    assert(percent::encoded(none, true) =~= none);
    assert(text::is_ascii_text(s));
    percent::lemma_decoding_behind_a_prefix(s, none, true);
    assert(s + none =~= s);
    assert(percent::plus_as_space(s) =~= s);
}

/// One part of a query as the server reads it.
spec fn pair_if(name: Seq<char>, value: Option<Seq<char>>) -> Seq<(Seq<char>, Seq<char>)> {
    match value {
        Some(value) => seq![(name, value)],
        None => Seq::<(Seq<char>, Seq<char>)>::empty(),
    }
}

/// A part of a query reads as the name and the value it was made of.
proof fn lemma_part_is_read(name: Seq<char>, written: Seq<char>, value: Seq<char>)
    requires
        all_plain(name),
        name.len() > 0,
        is_free_of(written, '&'),
        percent::decoded_plus(written) == value,
    ensures
        http::parsed_pair(name + "="@ + written) == (name, value),
        is_free_of(name + "="@ + written, '&'),
        (name + "="@ + written).len() > 0,
{
    reveal_strlit("=");
    assert("="@ =~= seq!['=']);
    assert forall|i: int| 0 <= i < name.len() implies #[trigger] name[i] != '=' by {
        assert(is_plain(name[i]));
    }
    assert forall|i: int| 0 <= i < name.len() implies #[trigger] name[i] != '&' by {
        assert(is_plain(name[i]));
    }
    lemma_cut(name, '=', written);
    lemma_plain_part_is_read(name);
    lemma_free_joined(name, "="@, '&');
    lemma_free_joined(name + "="@, written, '&');
}

/// An encoded value reads as itself, and holds no ampersand.
proof fn lemma_encoded_value(value: Seq<char>)
    ensures
        percent::decoded_plus(percent::encoded(value, false)) == value,
        is_free_of(percent::encoded(value, false), '&'),
{
    percent::what_is_encoded_decodes_to_itself(value, false);
    percent::lemma_encoded_bytes(value, false);
}

/// A list of query parts reads as a list of pairs.
spec fn reads_as(parts: Seq<Seq<char>>, read: Seq<(Seq<char>, Seq<char>)>) -> bool {
    &&& parts.len() == read.len()
    &&& forall|i: int|
        0 <= i < parts.len() ==> http::parsed_pair(#[trigger] parts[i]) == read[i] && is_free_of(
            parts[i],
            '&',
        ) && parts[i].len() > 0
}

proof fn lemma_reading_more(
    a: Seq<Seq<char>>,
    x: Seq<(Seq<char>, Seq<char>)>,
    b: Seq<Seq<char>>,
    y: Seq<(Seq<char>, Seq<char>)>,
)
    requires
        reads_as(a, x),
        reads_as(b, y),
    ensures
        reads_as(a + b, x + y),
{
    assert forall|i: int| 0 <= i < (a + b).len() implies http::parsed_pair(#[trigger] (a + b)[i])
        == (x + y)[i] && is_free_of((a + b)[i], '&') && (a + b)[i].len() > 0 by {
        if i < a.len() {
            assert((a + b)[i] == a[i]);
        } else {
            assert((a + b)[i] == b[i - a.len()]);
        }
    }
}

proof fn lemma_query_is_read(parts: Seq<Seq<char>>, read: Seq<(Seq<char>, Seq<char>)>)
    requires
        reads_as(parts, read),
        parts.len() > 0,
    ensures
        http::query_of("/issues?"@ + text::joined(parts, "&"@)) == read,
        http::path_of("/issues?"@ + text::joined(parts, "&"@)) == "/issues"@,
{
    reveal_strlit("/issues?");
    reveal_strlit("/issues");
    let query = text::joined(parts, "&"@);
    assert("/issues?"@ =~= "/issues"@ + seq!['?']);
    assert forall|i: int| 0 <= i < "/issues"@.len() implies #[trigger] "/issues"@[i] != '?' by {}
    lemma_cut("/issues"@, '?', query);
    assert("/issues?"@ + query =~= "/issues"@ + seq!['?'] + query);
    lemma_cutting_what_was_joined(parts);
    lemma_nothing_is_blank(parts);
    assert(parts.map_values(|pair: Seq<char>| http::parsed_pair(pair)) =~= read);
    lemma_plain_path_is_read("/issues"@);
    text::lemma_first_index_is("/issues"@, '?', 7);
    assert(text::before_first("/issues"@, '?') =~= "/issues"@);
}

proof fn lemma_nothing_is_blank(parts: Seq<Seq<char>>)
    requires
        forall|i: int| 0 <= i < parts.len() ==> (#[trigger] parts[i]).len() > 0,
    ensures
        parts.filter(|pair: Seq<char>| pair.len() > 0) == parts,
    decreases parts.len(),
{
    reveal(Seq::filter);
    if parts.len() > 0 {
        assert forall|i: int| 0 <= i < parts.drop_last().len() implies (
        #[trigger] parts.drop_last()[i]).len() > 0 by {
            assert(parts.drop_last()[i] == parts[i]);
        }
        lemma_nothing_is_blank(parts.drop_last());
        assert(parts[parts.len() - 1].len() > 0);
        assert(parts.drop_last().push(parts.last()) =~= parts);
    } else {
        assert(parts.filter(|pair: Seq<char>| pair.len() > 0) =~= parts);
    }
}

proof fn lemma_lookup_joined(
    a: Seq<(Seq<char>, Seq<char>)>,
    b: Seq<(Seq<char>, Seq<char>)>,
    name: Seq<char>,
)
    ensures
        http::lookup(a + b, name) == match http::lookup(a, name) {
            Some(value) => Some(value),
            None => http::lookup(b, name),
        },
    decreases a.len(),
{
    if a.len() == 0 {
        assert(a + b =~= b);
    } else {
        assert((a + b)[0] == a[0]);
        assert((a + b).skip(1) =~= a.skip(1) + b);
        lemma_lookup_joined(a.skip(1), b, name);
    }
}

proof fn lemma_lookup_pair(name: Seq<char>, value: Option<Seq<char>>, wanted: Seq<char>)
    ensures
        http::lookup(pair_if(name, value), wanted) == if name == wanted {
            value
        } else {
            None
        },
{
    reveal_with_fuel(http::lookup, 2);
    match value {
        Some(v) => {
            let one = pair_if(name, value);
            assert(one[0] == (name, v));
            assert(one.skip(1) =~= Seq::<(Seq<char>, Seq<char>)>::empty());
        },
        None => {},
    }
}

proof fn lemma_lookup_four(
    status: Option<Seq<char>>,
    name: Option<Seq<char>>,
    parent: Option<Seq<char>>,
    title: Option<Seq<char>>,
)
    ensures
        ({
            let all = pair_if("status"@, status) + pair_if("tag"@, name) + pair_if(
                "parent"@,
                parent,
            ) + pair_if("q"@, title);
            &&& http::lookup(all, "status"@) == status
            &&& http::lookup(all, "tag"@) == name
            &&& http::lookup(all, "parent"@) == parent
            &&& http::lookup(all, "q"@) == title
        }),
{
    reveal_strlit("status");
    reveal_strlit("tag");
    reveal_strlit("parent");
    reveal_strlit("q");
    assert("status"@.len() == 6 && "tag"@.len() == 3 && "parent"@.len() == 6 && "q"@.len() == 1);
    assert("status"@[0] == 's' && "parent"@[0] == 'p');
    let a = pair_if("status"@, status);
    let b = pair_if("tag"@, name);
    let c = pair_if("parent"@, parent);
    let d = pair_if("q"@, title);
    lemma_lookup_within(a, b, c, d, "status"@, status, name, parent, title);
    lemma_lookup_within(a, b, c, d, "tag"@, status, name, parent, title);
    lemma_lookup_within(a, b, c, d, "parent"@, status, name, parent, title);
    lemma_lookup_within(a, b, c, d, "q"@, status, name, parent, title);
}

proof fn lemma_lookup_within(
    a: Seq<(Seq<char>, Seq<char>)>,
    b: Seq<(Seq<char>, Seq<char>)>,
    c: Seq<(Seq<char>, Seq<char>)>,
    d: Seq<(Seq<char>, Seq<char>)>,
    wanted: Seq<char>,
    status: Option<Seq<char>>,
    name: Option<Seq<char>>,
    parent: Option<Seq<char>>,
    title: Option<Seq<char>>,
)
    requires
        a == pair_if("status"@, status),
        b == pair_if("tag"@, name),
        c == pair_if("parent"@, parent),
        d == pair_if("q"@, title),
    ensures
        http::lookup(a + b + c + d, wanted) == if "status"@ == wanted && status is Some {
            status
        } else if "tag"@ == wanted && name is Some {
            name
        } else if "parent"@ == wanted && parent is Some {
            parent
        } else if "q"@ == wanted {
            title
        } else {
            None
        },
{
    lemma_lookup_joined(a + b + c, d, wanted);
    lemma_lookup_joined(a + b, c, wanted);
    lemma_lookup_joined(a, b, wanted);
    lemma_lookup_pair("status"@, status, wanted);
    lemma_lookup_pair("tag"@, name, wanted);
    lemma_lookup_pair("parent"@, parent, wanted);
    lemma_lookup_pair("q"@, title, wanted);
}

proof fn lemma_encoded_part_is_read(name: Seq<char>, value: Option<Seq<char>>)
    requires
        all_plain(name),
        name.len() > 0,
    ensures
        reads_as(
            operations::part_if(name, operations::encoded_if(value)),
            pair_if(name, value),
        ),
{
    if let Some(v) = value {
        lemma_encoded_value(v);
        lemma_part_is_read(name, percent::encoded(v, false), v);
    }
}

proof fn lemma_parent_part_is_read(parent: Option<ParentFilter>)
    ensures
        ({
            let word = match parent {
                Some(parent) => Some(operations::parent_word(parent)),
                None => None,
            };
            reads_as(operations::part_if("parent"@, word), pair_if("parent"@, word))
        }),
        parent matches Some(filter) ==> ParentFilter::named(operations::parent_word(filter)) == Some(
            filter,
        ),
{
    reveal_strlit("parent");
    reveal_strlit("none");
    if let Some(filter) = parent {
        let word = operations::parent_word(filter);
        assert(all_plain(word)) by {
            if let ParentFilter::Under(id) = filter {
                lemma_decimal_is_plain(id as int);
            }
        }
        assert forall|i: int| 0 <= i < word.len() implies #[trigger] word[i] != '&' by {
            assert(is_plain(word[i]));
        }
        lemma_plain_part_is_read(word);
        lemma_part_is_read("parent"@, word, word);
        if let ParentFilter::Under(id) = filter {
            text::a_written_number_reads_back(id);
            lemma_decimal_starts_like_a_number(id as int);
        }
    }
}

proof fn lemma_decimal_starts_like_a_number(i: int)
    ensures
        text::decimal(i).len() > 0,
        text::decimal(i)[0] != 'n',
{
    lemma_digits_are_plain(
        if i < 0 {
            (-i) as nat
        } else {
            i as nat
        },
    );
}

/// The listing a client asks for is the listing the server reads: the same
/// View, the same Tag, the same title, the same parent.
pub proof fn a_listing_is_read_as_it_was_asked(narrowing: NarrowingModel)
    requires
        narrowing.tag matches Some(name) ==> tag::usable_name(name) && text::trimmed(name) == name,
    ensures
        routes::routed(http::path_of(operations::list_path(narrowing))) == Some(RouteModel::Issues),
        routes::asked_for(http::query_of(operations::list_path(narrowing))) == Ok::<
            NarrowingModel,
            Seq<char>,
        >(narrowing),
{
    reveal_strlit("status");
    reveal_strlit("tag");
    reveal_strlit("q");
    let status = operations::status_asked(narrowing.view);
    let word = match narrowing.parent {
        Some(parent) => Some(operations::parent_word(parent)),
        None => None,
    };
    let parts = operations::query_parts(narrowing);
    let read = pair_if("status"@, status) + pair_if("tag"@, narrowing.tag) + pair_if(
        "parent"@,
        word,
    ) + pair_if("q"@, narrowing.title);
    lemma_encoded_part_is_read("status"@, status);
    lemma_encoded_part_is_read("tag"@, narrowing.tag);
    lemma_parent_part_is_read(narrowing.parent);
    lemma_encoded_part_is_read("q"@, narrowing.title);
    let a = operations::part_if("status"@, operations::encoded_if(status));
    let b = operations::part_if("tag"@, operations::encoded_if(narrowing.tag));
    let c = operations::part_if("parent"@, word);
    let d = operations::part_if("q"@, operations::encoded_if(narrowing.title));
    lemma_reading_more(a, pair_if("status"@, status), b, pair_if("tag"@, narrowing.tag));
    lemma_reading_more(
        a + b,
        pair_if("status"@, status) + pair_if("tag"@, narrowing.tag),
        c,
        pair_if("parent"@, word),
    );
    lemma_reading_more(
        a + b + c,
        pair_if("status"@, status) + pair_if("tag"@, narrowing.tag) + pair_if("parent"@, word),
        d,
        pair_if("q"@, narrowing.title),
    );
    the_collections_are_addressed_as_spelled();
    if parts.len() == 0 {
        reveal_strlit("/issues");
        text::lemma_first_index_is("/issues"@, '?', 7);
        assert(http::query_of("/issues"@) =~= read);
    } else {
        lemma_query_is_read(parts, read);
        assert(routes::routed("/issues"@) == Some(RouteModel::Issues));
    }
    lemma_lookup_four(status, narrowing.tag, word, narrowing.title);
    if let View::WithStatus(s) = narrowing.view {
        kinds::a_status_reads_back(s);
    }
}

// ---------------------------------------------------------------------------
// Replies
// ---------------------------------------------------------------------------

/// Whether there is no carriage return among some bytes.
spec fn is_calm(bytes: Seq<u8>) -> bool {
    forall|i: int| 0 <= i < bytes.len() ==> #[trigger] bytes[i] != 13
}

/// Whether no carriage return stands two places before another, nor in the
/// last two places.
spec fn is_tame(bytes: Seq<u8>) -> bool {
    forall|i: int|
        0 <= i < bytes.len() && #[trigger] bytes[i] == 13 ==> i + 2 < bytes.len() && bytes[i + 2]
            != 13
}

proof fn lemma_scalar_is_calm(scalar: u32)
    requires
        vstd::utf8::is_scalar(scalar),
        scalar != 13,
    ensures
        is_calm(vstd::utf8::encode_scalar(scalar)),
        vstd::utf8::encode_scalar(scalar).len() > 0,
{
    let bytes = vstd::utf8::encode_scalar(scalar);
    if vstd::utf8::has_width_1_encoding(scalar) {
        assert(scalar <= 0x7f ==> (scalar & 0x7f) as u8 == scalar as u8) by (bit_vector);
        assert(scalar <= 0x7f && scalar != 13 ==> scalar as u8 != 13) by (bit_vector);
    } else {
        assert((0xC0u8 | ((scalar >> 6) & 0x1f) as u8) >= 0x80) by (bit_vector);
        assert((0xE0u8 | ((scalar >> 12) & 0x0f) as u8) >= 0x80) by (bit_vector);
        assert((0xF0u8 | ((scalar >> 18) & 0x07) as u8) >= 0x80) by (bit_vector);
        assert((0x80u8 | (scalar & 0x3f) as u8) >= 0x80) by (bit_vector);
        assert((0x80u8 | ((scalar >> 6) & 0x3f) as u8) >= 0x80) by (bit_vector);
        assert((0x80u8 | ((scalar >> 12) & 0x3f) as u8) >= 0x80) by (bit_vector);
    }
}

proof fn lemma_char_is_calm(c: char)
    requires
        c != '\r',
    ensures
        is_calm(vstd::utf8::encode_scalar(c as u32)),
        vstd::utf8::encode_scalar(c as u32).len() > 0,
{
    vstd::utf8::char_is_scalar(c);
    lemma_scalar_is_calm(c as u32);
}

/// A text without a carriage return has no such byte.
proof fn lemma_text_is_calm(s: Seq<char>)
    requires
        is_free_of(s, '\r'),
    ensures
        is_calm(vstd::utf8::encode_utf8(s)),
        s.len() > 0 ==> vstd::utf8::encode_utf8(s).len() > 0,
    decreases s.len(),
{
    if s.len() > 0 {
        let c = s[0];
        let rest = s.drop_first();
        assert forall|i: int| 0 <= i < rest.len() implies #[trigger] rest[i] != '\r' by {
            assert(rest[i] == s[i + 1]);
        }
        lemma_text_is_calm(rest);
        lemma_char_is_calm(c);
        let head = vstd::utf8::encode_scalar(c as u32);
        let tail = vstd::utf8::encode_utf8(rest);
        let all = vstd::utf8::encode_utf8(s);
        assert forall|i: int| 0 <= i < all.len() implies #[trigger] all[i] != 13 by {
            if i < head.len() {
                assert(all[i] == head[i]);
            } else {
                assert(all[i] == tail[i - head.len()]);
            }
        }
    }
}

/// A calm line behind a line ending keeps tame bytes tame.
proof fn lemma_one_more_line(before: Seq<u8>, line: Seq<u8>)
    requires
        is_tame(before),
        is_calm(line),
        line.len() > 0,
    ensures
        is_tame(before + seq![13u8, 10u8] + line),
{
    let all = before + seq![13u8, 10u8] + line;
    let n = before.len() as int;
    assert forall|i: int| 0 <= i < all.len() && #[trigger] all[i] == 13 implies i + 2 < all.len()
        && all[i + 2] != 13 by {
        if i < n {
            assert(before[i] == 13);
            assert(all[i + 2] == before[i + 2]);
        } else if i == n {
            assert(all[i + 2] == line[0]);
        } else if i == n + 1 {
            assert(all[i] == 10);
        } else {
            assert(all[i] == line[i - n - 2]);
        }
    }
}

/// One header, without its line ending.
spec fn header_line(header: (Seq<char>, Seq<char>)) -> Seq<char> {
    header.0 + ": "@ + header.1
}

/// A first line and header lines, each but the last with its line ending.
spec fn lines(first: Seq<char>, headers: Seq<(Seq<char>, Seq<char>)>) -> Seq<char>
    decreases headers.len(),
{
    if headers.len() == 0 {
        first
    } else {
        lines(first, headers.drop_last()) + "\r\n"@ + header_line(headers.last())
    }
}

proof fn lemma_lines(first: Seq<char>, headers: Seq<(Seq<char>, Seq<char>)>)
    ensures
        first + "\r\n"@ + http::header_lines(headers) == lines(first, headers) + "\r\n"@,
    decreases headers.len(),
{
    if headers.len() == 0 {
        assert(first + "\r\n"@ + http::header_lines(headers) =~= first + "\r\n"@);
    } else {
        let rest = headers.drop_last();
        let last = headers.last();
        lemma_lines(first, rest);
        let shown = http::header_lines(rest);
        assert(first + "\r\n"@ + http::header_lines(headers) =~= (first + "\r\n"@ + shown)
            + header_line(last) + "\r\n"@);
    }
}

/// Whether the headers of a response are each one line.
pub open spec fn one_line_each(headers: Seq<(Seq<char>, Seq<char>)>) -> bool {
    forall|i: int|
        0 <= i < headers.len() ==> is_free_of((#[trigger] headers[i]).0, '\r') && is_free_of(
            headers[i].1,
            '\r',
        )
}

proof fn lemma_lines_are_tame(first: Seq<char>, headers: Seq<(Seq<char>, Seq<char>)>)
    requires
        is_free_of(first, '\r'),
        one_line_each(headers),
    ensures
        is_tame(vstd::utf8::encode_utf8(lines(first, headers))),
    decreases headers.len(),
{
    if headers.len() == 0 {
        lemma_text_is_calm(first);
    } else {
        let rest = headers.drop_last();
        let last = headers.last();
        assert forall|i: int| 0 <= i < rest.len() implies is_free_of((#[trigger] rest[i]).0, '\r')
            && is_free_of(rest[i].1, '\r') by {
            assert(rest[i] == headers[i]);
        }
        assert(headers[headers.len() - 1] == last);
        lemma_lines_are_tame(first, rest);
        lemma_colon_is_calm();
        lemma_free_joined(last.0, ": "@, '\r');
        lemma_free_joined(last.0 + ": "@, last.1, '\r');
        lemma_another_line(lines(first, rest), header_line(last));
    }
}

proof fn lemma_colon_is_calm()
    ensures
        is_free_of(": "@, '\r'),
        ": "@.len() == 2,
{
    reveal_strlit(": ");
}

/// A line of text behind a line ending keeps a tame text tame.
proof fn lemma_another_line(before: Seq<char>, line: Seq<char>)
    requires
        is_tame(vstd::utf8::encode_utf8(before)),
        is_free_of(line, '\r'),
        line.len() > 0,
    ensures
        is_tame(vstd::utf8::encode_utf8(before + "\r\n"@ + line)),
{
    lemma_line_ending();
    lemma_text_is_calm(line);
    text::lemma_bytes_of_joined(before, "\r\n"@);
    text::lemma_bytes_of_joined(before + "\r\n"@, line);
    lemma_one_more_line(vstd::utf8::encode_utf8(before), vstd::utf8::encode_utf8(line));
}

proof fn lemma_line_ending()
    ensures
        vstd::utf8::encode_utf8("\r\n"@) == seq![13u8, 10u8],
        vstd::utf8::encode_utf8("\r\n\r\n"@) == seq![13u8, 10u8, 13u8, 10u8],
        "\r\n"@ == seq!['\r', '\n'],
        "\r\n\r\n"@ == seq!['\r', '\n', '\r', '\n'],
{
    reveal_strlit("\r\n");
    reveal_strlit("\r\n\r\n");
    assert(vstd::utf8::is_ascii_chars("\r\n"@));
    assert(vstd::utf8::is_ascii_chars("\r\n\r\n"@));
    vstd::utf8::is_ascii_chars_encode_utf8("\r\n"@);
    vstd::utf8::is_ascii_chars_encode_utf8("\r\n\r\n"@);
    assert("\r\n"@ =~= seq!['\r', '\n']);
    assert("\r\n\r\n"@ =~= seq!['\r', '\n', '\r', '\n']);
    assert(vstd::utf8::encode_utf8("\r\n"@) =~= seq![13u8, 10u8]);
    assert(vstd::utf8::encode_utf8("\r\n\r\n"@) =~= seq![13u8, 10u8, 13u8, 10u8]);
}

/// The first line of a response.
spec fn status_line(status: u16) -> Seq<char> {
    "HTTP/1.1 "@ + text::decimal(status as int) + " "@ + http::reason_text(status)
}

/// The head of a response, up to its blank line.
spec fn head_core(response: ResponseModel) -> Seq<char> {
    lines(status_line(response.status), response.headers) + "\r\n"@ + ("Content-Length: "@
        + text::decimal(response.body.len() as int)) + "\r\n"@ + "Connection: close"@
}

proof fn lemma_head_is_core(response: ResponseModel)
    ensures
        http::head_text(response) == head_core(response) + "\r\n\r\n"@,
{
    reveal_strlit("Connection: close");
    reveal_strlit("Connection: close\r\n\r\n");
    lemma_line_ending();
    assert("Connection: close\r\n\r\n"@ =~= "Connection: close"@ + "\r\n\r\n"@);
    lemma_lines(status_line(response.status), response.headers);
    let a = lines(status_line(response.status), response.headers);
    let b = "Content-Length: "@ + text::decimal(response.body.len() as int);
    assert(http::head_text(response) =~= (a + "\r\n"@) + b + "\r\n"@ + ("Connection: close"@
        + "\r\n\r\n"@));
    assert((a + "\r\n"@) + b + "\r\n"@ + ("Connection: close"@ + "\r\n\r\n"@) =~= head_core(
        response,
    ) + "\r\n\r\n"@);
}

proof fn lemma_fixed_words()
    ensures
        is_free_of("HTTP/1.1 "@, '\r') && is_free_of("HTTP/1.1 "@, '\n'),
        is_free_of(" "@, '\r') && is_free_of(" "@, '\n'),
        is_free_of("Content-Length: "@, '\r'),
        is_free_of("Connection: close"@, '\r'),
        "Connection: close"@.len() > 0,
        "Content-Length: "@.len() > 0,
        " "@ == seq![' '],
{
    reveal_strlit("HTTP/1.1 ");
    reveal_strlit(" ");
    reveal_strlit("Content-Length: ");
    reveal_strlit("Connection: close");
    assert(" "@ =~= seq![' ']);
}

proof fn lemma_reason_is_one_line(status: u16)
    ensures
        is_free_of(http::reason_text(status), '\r'),
        is_free_of(http::reason_text(status), '\n'),
{
    reveal_strlit("OK");
    reveal_strlit("Created");
    reveal_strlit("No Content");
    reveal_strlit("Bad Request");
    reveal_strlit("Unauthorized");
    reveal_strlit("Forbidden");
    reveal_strlit("Not Found");
    reveal_strlit("Method Not Allowed");
    reveal_strlit("Conflict");
    reveal_strlit("Payload Too Large");
    reveal_strlit("Service Unavailable");
    reveal_strlit("Internal Server Error");
}

proof fn lemma_decimal_is_one_word(n: nat)
    ensures
        is_free_of(text::digits(n), '\r'),
        is_free_of(text::digits(n), '\n'),
        text::digits(n).len() > 0,
        forall|i: int|
            0 <= i < text::digits(n).len() ==> !text::is_white_space(#[trigger] text::digits(n)[i]),
{
    lemma_digits_are_plain(n);
    let s = text::digits(n);
    assert forall|i: int| 0 <= i < s.len() implies #[trigger] s[i] != '\r' && s[i] != '\n'
        && !text::is_white_space(s[i]) by {
        assert(text::is_digit(s[i]));
    }
}

proof fn lemma_status_line_is_one_line(status: u16)
    ensures
        is_free_of(status_line(status), '\r'),
        is_free_of(status_line(status), '\n'),
{
    let number = text::decimal(status as int);
    lemma_fixed_words();
    lemma_reason_is_one_line(status);
    lemma_decimal_is_one_word(status as nat);
    lemma_free_joined("HTTP/1.1 "@, number, '\r');
    lemma_free_joined("HTTP/1.1 "@, number, '\n');
    lemma_free_joined("HTTP/1.1 "@ + number, " "@, '\r');
    lemma_free_joined("HTTP/1.1 "@ + number, " "@, '\n');
    lemma_free_joined("HTTP/1.1 "@ + number + " "@, http::reason_text(status), '\r');
    lemma_free_joined("HTTP/1.1 "@ + number + " "@, http::reason_text(status), '\n');
}

proof fn lemma_core_is_tame(response: ResponseModel)
    requires
        one_line_each(response.headers),
    ensures
        is_tame(vstd::utf8::encode_utf8(head_core(response))),
{
    let first = status_line(response.status);
    let length = "Content-Length: "@ + text::decimal(response.body.len() as int);
    lemma_fixed_words();
    lemma_status_line_is_one_line(response.status);
    lemma_lines_are_tame(first, response.headers);
    lemma_decimal_is_one_word(response.body.len());
    lemma_free_joined("Content-Length: "@, text::decimal(response.body.len() as int), '\r');
    lemma_another_line(lines(first, response.headers), length);
    lemma_another_line(lines(first, response.headers) + "\r\n"@ + length, "Connection: close"@);
}

proof fn lemma_word_ends(word: Seq<char>, rest: Seq<char>)
    requires
        forall|i: int| 0 <= i < word.len() ==> !text::is_white_space(#[trigger] word[i]),
        rest.len() > 0 ==> text::is_white_space(rest[0]),
    ensures
        client::word_length(word + rest) == word.len(),
    decreases word.len(),
{
    if word.len() == 0 {
        assert(word + rest =~= rest);
    } else {
        let more = word.skip(1);
        assert forall|i: int| 0 <= i < more.len() implies !text::is_white_space(
            #[trigger] more[i],
        ) by {
            assert(more[i] == word[i + 1]);
        }
        assert((word + rest)[0] == word[0]);
        assert((word + rest).skip(1) =~= more + rest);
        lemma_word_ends(more, rest);
    }
}

/// The second word of a response's first line is its status.
proof fn lemma_status_is_read(status: u16, ending: Seq<char>)
    requires
        ending.len() > 0 ==> text::is_white_space(ending[0]),
    ensures
        client::first_word(client::after_word(status_line(status) + ending)) == text::decimal(
            status as int,
        ),
{
    reveal_strlit("HTTP/1.1 ");
    lemma_fixed_words();
    lemma_decimal_is_one_word(status as nat);
    let number = text::decimal(status as int);
    let version = "HTTP/1.1 "@.take(8);
    let last = seq![' '] + http::reason_text(status) + ending;
    let middle = seq![' '] + (number + last);
    let line = status_line(status) + ending;
    assert(line =~= version + middle);
    assert(line[0] == 'H');
    assert(text::trimmed_start(line) == line);
    lemma_word_ends(version, middle);
    assert(line.skip(8) =~= middle);
    assert(middle.skip(1) =~= number + last);
    assert((number + last)[0] == number[0]);
    reveal_with_fuel(text::trimmed_start, 2);
    assert(text::trimmed_start(middle) == number + last);
    lemma_word_ends(number, last);
    assert((number + last).take(number.len() as int) =~= number);
}

/// What the server writes is what the client reads: the same status, the same
/// body, whatever bytes the body holds.
pub proof fn a_response_reads_back(response: ResponseModel, r: Result<Reply, ClientError>)
    requires
        one_line_each(response.headers),
        client::is_reply(http::response_bytes(response), r),
    ensures
        r matches Ok(reply) && reply.status == response.status && reply.body@ == response.body,
{
    let core = head_core(response);
    let bytes = vstd::utf8::encode_utf8(core);
    let ending = seq![13u8, 10u8, 13u8, 10u8];
    let raw = http::response_bytes(response);
    let n = bytes.len() as int;
    lemma_head_is_core(response);
    lemma_line_ending();
    text::lemma_bytes_of_joined(core, "\r\n\r\n"@);
    assert(raw =~= bytes + ending + response.body);
    lemma_core_is_tame(response);
    assert(client::ends_head(raw, n));
    assert forall|k: int| 0 <= k < n implies !#[trigger] client::ends_head(raw, k) by {
        if client::ends_head(raw, k) {
            assert(raw[k] == bytes[k]);
            assert(bytes[k] == 13);
            assert(raw[k + 2] == bytes[k + 2]);
        }
    }
    assert(client::head_ends_at(raw, n));
    assert(client::reply_at(raw, n, r));
    assert(raw.take(n) =~= bytes);
    assert(raw.skip(n + 4) =~= response.body);
    vstd::utf8::encode_utf8_valid_utf8(core);
    vstd::utf8::encode_utf8_decode_utf8(core);
    lemma_core_gives_status(response);
}

proof fn lemma_core_gives_status(response: ResponseModel)
    ensures
        client::status_in(head_core(response)) == Some(response.status as nat),
{
    let first = status_line(response.status);
    let core = head_core(response);
    lemma_line_ending();
    lemma_status_line_is_one_line(response.status);
    let rest = lemma_core_starts_with_status(response);
    assert(core =~= (first + seq!['\r']) + seq!['\n'] + rest);
    lemma_free_joined(first, seq!['\r'], '\n');
    lemma_cut(first + seq!['\r'], '\n', rest);
    lemma_status_is_read(response.status, seq!['\r']);
    lemma_decimal_is_one_word(response.status as nat);
    text::a_written_unsigned_number_reads_back(response.status as nat, u16::MAX as nat);
}

/// What follows the first line of a response's head.
proof fn lemma_core_starts_with_status(response: ResponseModel) -> (rest: Seq<char>)
    ensures
        head_core(response) == status_line(response.status) + "\r\n"@ + rest,
{
    let first = status_line(response.status);
    let length = "Content-Length: "@ + text::decimal(response.body.len() as int);
    let tail = length + "\r\n"@ + "Connection: close"@;
    lemma_lines(first, response.headers);
    let rest = http::header_lines(response.headers) + tail;
    assert(head_core(response) =~= (lines(first, response.headers) + "\r\n"@) + tail);
    assert((first + "\r\n"@ + http::header_lines(response.headers)) + tail =~= first + "\r\n"@
        + rest);
    rest
}

} // verus!
