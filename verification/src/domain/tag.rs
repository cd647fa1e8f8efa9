//! Tags: user-invented names, compared without regard to case.

use std::cmp::Ordering;
use std::hash::{Hash, Hasher};
use std::str::FromStr;

use vstd::prelude::*;

use crate::domain::kinds::ParseError;
use crate::text;

verus! {

broadcast use vstd::seq_lib::group_seq_properties;

/// The longest a Tag may be. Long enough for a short phrase, short enough that
/// a chip never crowds out the title it sits under.
pub const MAX_TAG_LEN: usize = 50;

/// Whether a text may be the name of a Tag, once trimmed: it is not empty,
/// holds no control character (and so no newline), and is not too long to
/// render.
pub open spec fn usable_name(s: Seq<char>) -> bool {
    &&& s.len() > 0
    &&& forall|i: int| 0 <= i < s.len() ==> !text::is_control(#[trigger] s[i])
    &&& s.len() <= MAX_TAG_LEN
}

/// What two spellings of one Tag have in common: the name, case-folded.
pub open spec fn key_of(name: Seq<char>) -> Seq<char> {
    text::lowercased(name)
}

/// A user-invented name attached to an Issue.
///
/// Tags are derived rather than declared: one exists exactly as long as some
/// Issue carries it, and vanishes when the last one lets go.
///
/// Identity is case-insensitive (`Bug` and `bug` are one Tag), so comparison
/// is written over [`Tag::key`]. That makes it structurally impossible for a
/// case variant to slip past a `contains` check, which no database constraint
/// could catch: without a table of Tags there is nothing for a unique index to
/// be unique across.
#[derive(Debug)]
pub struct Tag(String);

impl View for Tag {
    type V = Seq<char>;

    closed spec fn view(&self) -> Seq<char> {
        self.0@
    }
}

impl Clone for Tag {
    fn clone(&self) -> (r: Tag)
        ensures
            r@ == self@,
    {
        proof {
            use_type_invariant(self);
        }
        Tag(self.0.clone())
    }
}

impl Tag {
    #[verifier::type_invariant]
    spec fn well_formed(self) -> bool {
        usable_name(self.0@) && text::trimmed(self.0@) == self.0@
    }

    /// The name as the user first spelled it, which is a usable one with no
    /// white space around it.
    pub fn as_str(&self) -> (r: &str)
        ensures
            r@ == self@,
            usable_name(self@),
            text::trimmed(self@) == self@,
    {
        proof {
            use_type_invariant(self);
        }
        self.0.as_str()
    }

    /// The name as the user first spelled it, as a string of its own.
    pub fn to_string(&self) -> (r: String)
        ensures
            r@ == self@,
    {
        self.0.clone()
    }

    /// The comparison identity: case-folded.
    pub fn key(&self) -> (r: String)
        ensures
            r@ == key_of(self@),
    {
        text::to_lowercase(self.0.as_str())
    }

    /// Whether this Tag and another are one, whatever their spelling.
    pub fn is(&self, other: &Tag) -> (r: bool)
        ensures
            r == (key_of(self@) == key_of(other@)),
    {
        text::same(self.key().as_str(), other.key().as_str())
    }
}

/// Two Tags are equal when they have the same key.
impl PartialEq for Tag {
    fn eq(&self, other: &Tag) -> (r: bool) {
        self.is(other)
    }
}

impl vstd::std_specs::cmp::PartialEqSpecImpl for Tag {
    open spec fn obeys_eq_spec() -> bool {
        true
    }

    open spec fn eq_spec(&self, other: &Tag) -> bool {
        key_of(self@) == key_of(other@)
    }
}

impl Eq for Tag {

}

/// `str::hash`: feeds a text to a hasher.
///
/// Nothing is claimed of the hasher afterwards. It may be any, and what it makes
/// of the text is its own.
#[verifier::external_body]
fn feed<H: Hasher>(text: &str, state: &mut H) {
    text.hash(state)
}

/// Whether a hasher went through a step by being fed a text: the reference holds
/// what it was before the step and what it is after.
pub closed spec fn is_fed<H: Hasher>(text: Seq<char>, step: &mut H) -> bool {
    exists|s: &str| s@ == text && #[trigger] call_ensures(feed::<H>, (s, step), ())
}

/// A Tag is hashed by its key, and in no other way does the hasher change.
impl Hash for Tag {
    fn hash<H: Hasher>(&self, state: &mut H)
        ensures
            exists|step: &mut H|
                *step == *old(state) && *final(step) == *final(state) && #[trigger] is_fed::<H>(
                    key_of(self@),
                    step,
                ),
    {
        let feed_text = feed::<H>;
        let key = self.key();
        let text: &str = key.as_str();
        feed_text(text, { state });
        assert forall|step: &mut H| #[trigger]
            call_ensures(feed::<H>, (text, step), ()) implies is_fed::<H>(key_of(self@), step) by {}
    }
}

impl Tag {
    /// Whether this Tag's key comes before another's.
    pub fn comes_before(&self, other: &Tag) -> (r: bool)
        ensures
            r == text::precedes(key_of(self@), key_of(other@)),
    {
        text::is_before(self.key().as_str(), other.key().as_str())
    }

    /// How two Tags are ordered: by their keys.
    pub fn cmp(&self, other: &Tag) -> (r: Ordering)
        ensures
            match r {
                Ordering::Less => text::precedes(key_of(self@), key_of(other@)),
                Ordering::Equal => key_of(self@) == key_of(other@),
                Ordering::Greater => text::precedes(key_of(other@), key_of(self@)),
            },
    {
        proof {
            text::the_order_of_texts_is_total(key_of(self@), key_of(other@));
        }
        if self.comes_before(other) {
            Ordering::Less
        } else if other.comes_before(self) {
            Ordering::Greater
        } else {
            Ordering::Equal
        }
    }
}

/// Trims, then rejects anything that would make a Tag unusable: an empty name,
/// a control character, or a name too long to render.
impl FromStr for Tag {
    type Err = ParseError;

    fn from_str(s: &str) -> (r: Result<Self, ParseError>)
        ensures
            match r {
                Ok(tag) => usable_name(text::trimmed(s@)) && tag@ == text::trimmed(s@),
                Err(err) => !usable_name(text::trimmed(s@)) && err.kind@ == "tag"@ && err.value@
                    == s@,
            },
    {
        let name = text::trim(s);
        let chars = text::chars_of(name.as_str());
        let mut usable = chars.len() > 0 && chars.len() <= MAX_TAG_LEN;
        let mut i: usize = 0;
        while i < chars.len() && usable
            invariant
                i <= chars.len(),
                chars@ == text::trimmed(s@),
                usable ==> forall|j: int| 0 <= j < i ==> !text::is_control(#[trigger] chars@[j]),
                usable ==> chars.len() > 0 && chars.len() <= MAX_TAG_LEN,
                !usable ==> !usable_name(chars@),
            decreases chars.len() - i,
        {
            if text::control(chars[i]) {
                usable = false;
            }
            i += 1;
        }
        if !usable {
            return Err(ParseError { kind: "tag", value: s.to_owned() });
        }
        proof {
            text::trimming_twice_is_trimming_once(s@);
        }
        Ok(Tag(name))
    }
}

// ---------------------------------------------------------------------------
// Sets of Tags
// ---------------------------------------------------------------------------

/// The names of a list of Tags.
pub open spec fn names(tags: Seq<Tag>) -> Seq<Seq<char>> {
    tags.map_values(|t: Tag| t@)
}

/// Whether a list of names is in order of key, no key twice.
pub open spec fn in_key_order(names: Seq<Seq<char>>) -> bool {
    forall|i: int, j: int|
        0 <= i < j < names.len() ==> text::precedes(
            key_of(#[trigger] names[i]),
            key_of(#[trigger] names[j]),
        )
}

/// Whether a list of names holds a Tag, in whatever spelling.
pub open spec fn has_tag(names: Seq<Seq<char>>, name: Seq<char>) -> bool {
    exists|i: int| 0 <= i < names.len() && key_of(#[trigger] names[i]) == key_of(name)
}

/// The first name in a list that spells a Tag.
pub open spec fn spelling_in(names: Seq<Seq<char>>, name: Seq<char>) -> Option<Seq<char>>
    decreases names.len(),
{
    if names.len() == 0 {
        None
    } else if key_of(names[0]) == key_of(name) {
        Some(names[0])
    } else {
        spelling_in(names.skip(1), name)
    }
}

/// The spelling a name settles on: the one in use, or else its own.
pub open spec fn canonical(name: Seq<char>, in_use: Seq<Seq<char>>) -> Seq<char> {
    match spelling_in(in_use, name) {
        Some(spelling) => spelling,
        None => name,
    }
}

/// A list in key order with one more name at its place, unless its key is
/// there already.
pub open spec fn with_name(names: Seq<Seq<char>>, name: Seq<char>) -> Seq<Seq<char>>
    decreases names.len(),
{
    if names.len() == 0 {
        seq![name]
    } else if key_of(names[0]) == key_of(name) {
        names
    } else if text::precedes(key_of(name), key_of(names[0])) {
        seq![name] + names
    } else {
        seq![names[0]] + with_name(names.skip(1), name)
    }
}

/// The names in key order, each key once, in the spelling that came first.
pub open spec fn collected(names: Seq<Seq<char>>) -> Seq<Seq<char>>
    decreases names.len(),
{
    if names.len() == 0 {
        Seq::<Seq<char>>::empty()
    } else {
        with_name(collected(names.drop_last()), names.last())
    }
}

/// The names as they are stored: folded against the spellings in use, each key
/// once, in key order.
pub open spec fn normalised(candidates: Seq<Seq<char>>, in_use: Seq<Seq<char>>) -> Seq<Seq<char>> {
    collected(candidates.map_values(|name: Seq<char>| canonical(name, in_use)))
}

/// Adding a name keeps a list in key order.
pub proof fn lemma_with_name_keeps_order(names: Seq<Seq<char>>, name: Seq<char>)
    requires
        in_key_order(names),
    ensures
        in_key_order(with_name(names, name)),
    decreases names.len(),
{
    let out = with_name(names, name);
    if names.len() == 0 || key_of(names[0]) == key_of(name) {
    } else if text::precedes(key_of(name), key_of(names[0])) {
        assert forall|i: int, j: int| 0 <= i < j < out.len() implies text::precedes(
            key_of(#[trigger] out[i]),
            key_of(#[trigger] out[j]),
        ) by {
            if i == 0 && j > 1 {
                text::the_order_of_texts_is_transitive(
                    key_of(name),
                    key_of(names[0]),
                    key_of(names[j - 1]),
                );
            }
        }
    } else {
        let rest = names.skip(1);
        lemma_with_name_keeps_order(rest, name);
        lemma_with_name_holds(rest, name);
        text::the_order_of_texts_is_total(key_of(name), key_of(names[0]));
        let tail = with_name(rest, name);
        assert forall|i: int, j: int| 0 <= i < j < out.len() implies text::precedes(
            key_of(#[trigger] out[i]),
            key_of(#[trigger] out[j]),
        ) by {
            if i == 0 {
                let x = tail[j - 1];
                assert(tail.contains(x));
                assert(rest.contains(x) || x == name);
                if rest.contains(x) {
                    let k = choose|k: int| 0 <= k < rest.len() && rest[k] == x;
                    assert(names[k + 1] == x);
                }
            } else {
                assert(out[i] == tail[i - 1]);
                assert(out[j] == tail[j - 1]);
            }
        }
    }
}

/// A list with one more name holds what it held, and that Tag, and nothing
/// else.
pub proof fn lemma_with_name_holds(names: Seq<Seq<char>>, name: Seq<char>)
    ensures
        forall|x: Seq<char>| #[trigger]
            with_name(names, name).contains(x) ==> names.contains(x) || x == name,
        forall|x: Seq<char>| names.contains(x) ==> #[trigger] with_name(names, name).contains(x),
        has_tag(with_name(names, name), name),
    decreases names.len(),
{
    let out = with_name(names, name);
    if names.len() == 0 {
        assert(key_of(out[0]) == key_of(name));
    } else if key_of(names[0]) == key_of(name) {
        assert(key_of(out[0]) == key_of(name));
    } else if text::precedes(key_of(name), key_of(names[0])) {
        assert(key_of(out[0]) == key_of(name));
        assert forall|x: Seq<char>| names.contains(x) implies #[trigger] out.contains(x) by {
            let k = choose|k: int| 0 <= k < names.len() && names[k] == x;
            assert(out[k + 1] == x);
        }
    } else {
        let rest = names.skip(1);
        lemma_with_name_holds(rest, name);
        let tail = with_name(rest, name);
        assert forall|x: Seq<char>| #[trigger] out.contains(x) implies names.contains(x) || x
            == name by {
            let k = choose|k: int| 0 <= k < out.len() && out[k] == x;
            if k == 0 {
                assert(names[0] == x);
            } else {
                assert(tail[k - 1] == x);
                assert(tail.contains(x));
                if rest.contains(x) {
                    let m = choose|m: int| 0 <= m < rest.len() && rest[m] == x;
                    assert(names[m + 1] == x);
                }
            }
        }
        assert forall|x: Seq<char>| names.contains(x) implies #[trigger] out.contains(x) by {
            let k = choose|k: int| 0 <= k < names.len() && names[k] == x;
            if k == 0 {
                assert(out[0] == x);
            } else {
                assert(rest[k - 1] == x);
                assert(rest.contains(x));
                assert(tail.contains(x));
                let m = choose|m: int| 0 <= m < tail.len() && tail[m] == x;
                assert(out[m + 1] == x);
            }
        }
        let k = choose|k: int| 0 <= k < tail.len() && key_of(#[trigger] tail[k]) == key_of(name);
        assert(out[k + 1] == tail[k]);
    }
}

/// A name whose Tag is already there is not added, where the names are in key
/// order.
pub proof fn lemma_known_name_adds_nothing(names: Seq<Seq<char>>, name: Seq<char>)
    requires
        in_key_order(names),
    ensures
        has_tag(names, name) ==> with_name(names, name) == names,
    decreases names.len(),
{
    if has_tag(names, name) && key_of(names[0]) != key_of(name) {
        let k = choose|k: int| 0 <= k < names.len() && key_of(#[trigger] names[k]) == key_of(name);
        let rest = names.skip(1);
        assert(key_of(rest[k - 1]) == key_of(name));
        assert(text::precedes(key_of(names[0]), key_of(names[k])));
        text::the_order_of_texts_is_total(key_of(names[0]), key_of(name));
        assert forall|i: int, j: int| 0 <= i < j < rest.len() implies text::precedes(
            key_of(#[trigger] rest[i]),
            key_of(#[trigger] rest[j]),
        ) by {
            assert(rest[i] == names[i + 1] && rest[j] == names[j + 1]);
        }
        lemma_known_name_adds_nothing(rest, name);
        assert(seq![names[0]] + rest =~= names);
    }
}

/// Tags in key order, each key once, in the spelling that came first.
#[derive(Debug)]
pub struct TagSet {
    tags: Vec<Tag>,
}

impl View for TagSet {
    type V = Seq<Seq<char>>;

    closed spec fn view(&self) -> Seq<Seq<char>> {
        names(self.tags@)
    }
}

impl TagSet {
    #[verifier::type_invariant]
    spec fn well_formed(self) -> bool {
        in_key_order(names(self.tags@))
    }

    /// A set with nothing in it.
    pub fn new() -> (r: TagSet)
        ensures
            r@ == Seq::<Seq<char>>::empty(),
    {
        let r = TagSet { tags: Vec::new() };
        assert(r@ =~= Seq::<Seq<char>>::empty());
        r
    }

    /// How many Tags the set holds.
    pub fn len(&self) -> (n: usize)
        ensures
            n == self@.len(),
    {
        self.tags.len()
    }

    /// The Tags of the set, in order.
    pub fn as_slice(&self) -> (r: &[Tag])
        ensures
            names(r@) == self@,
            in_key_order(self@),
    {
        proof {
            use_type_invariant(self);
        }
        self.tags.as_slice()
    }

    /// The Tags of the set, in order, leaving the set.
    pub fn into_vec(self) -> (r: Vec<Tag>)
        ensures
            names(r@) == self@,
            in_key_order(self@),
    {
        proof {
            use_type_invariant(&self);
        }
        self.tags
    }

    /// The Tag of the set that this one is, in the spelling the set has.
    pub fn get(&self, tag: &Tag) -> (r: Option<&Tag>)
        ensures
            match r {
                Some(found) => spelling_in(self@, tag@) == Some(found@),
                None => spelling_in(self@, tag@) is None,
            },
    {
        let mut i: usize = 0;
        assert(self@.skip(0) =~= self@);
        while i < self.tags.len()
            invariant
                i <= self.tags.len(),
                spelling_in(self@, tag@) == spelling_in(self@.skip(i as int), tag@),
            decreases self.tags.len() - i,
        {
            assert(self@.skip(i as int)[0] == self.tags@[i as int]@);
            if self.tags[i].is(tag) {
                return Some(&self.tags[i]);
            }
            assert(self@.skip(i as int).skip(1) =~= self@.skip(i + 1));
            i += 1;
        }
        None
    }

    /// Adds a Tag, unless the set holds it in some spelling already.
    pub fn insert(&mut self, tag: Tag)
        ensures
            final(self)@ == with_name(old(self)@, tag@),
    {
        proof {
            use_type_invariant(&*self);
        }
        let ghost before = self@;
        let mut tags: Vec<Tag> = Vec::new();
        std::mem::swap(&mut tags, &mut self.tags);
        let mut i: usize = 0;
        assert(before.skip(0) =~= before);
        assert(before =~= before.take(0) + before.skip(0));
        assert(before.take(0) + with_name(before.skip(0), tag@) =~= with_name(before, tag@));
        while i < tags.len() && tags[i].comes_before(&tag)
            invariant
                i <= tags.len(),
                before == names(tags@),
                with_name(before, tag@) == before.take(i as int) + with_name(
                    before.skip(i as int),
                    tag@,
                ),
            decreases tags.len() - i,
        {
            proof {
                let rest = before.skip(i as int);
                assert(rest[0] == tags@[i as int]@);
                text::the_order_of_texts_is_total(key_of(rest[0]), key_of(tag@));
                assert(rest.skip(1) =~= before.skip(i + 1));
                assert(before.take(i as int) + (seq![rest[0]] + with_name(rest.skip(1), tag@))
                    =~= before.take(i + 1) + with_name(before.skip(i + 1), tag@));
            }
            i += 1;
        }
        proof {
            lemma_with_name_keeps_order(before, tag@);
            let rest = before.skip(i as int);
            if rest.len() > 0 {
                assert(rest[0] == tags@[i as int]@);
                text::the_order_of_texts_is_total(key_of(rest[0]), key_of(tag@));
            }
        }
        if i < tags.len() && tags[i].is(&tag) {
            assert(before.take(i as int) + before.skip(i as int) =~= before);
            self.tags = tags;
        } else {
            assert(before.take(i as int) + with_name(before.skip(i as int), tag@) =~= names(
                tags@.insert(i as int, tag),
            ));
            tags.insert(i, tag);
            self.tags = tags;
        }
    }
}

impl Tag {
    /// Returns the spelling already established for this name, if there is
    /// one.
    ///
    /// Case-insensitive equality keeps comparisons honest, but what is stored
    /// is whatever was typed. Folding on the way in is what stops `Bug` and
    /// `bug` showing up as two rows in the sidebar.
    pub fn canonicalise(self, in_use: &TagSet) -> (r: Tag)
        ensures
            r@ == canonical(self@, in_use@),
    {
        match in_use.get(&self) {
            Some(established) => established.clone(),
            None => self,
        }
    }
}

/// Prepares Tags for storage: folded against the spellings already in use,
/// deduplicated, and sorted so display order never depends on entry order.
pub fn normalise_tags(candidates: Vec<Tag>, in_use: &TagSet) -> (tags: Vec<Tag>)
    ensures
        names(tags@) == normalised(names(candidates@), in_use@),
        in_key_order(names(tags@)),
{
    let mut set = TagSet::new();
    let ghost folded = names(candidates@).map_values(|name: Seq<char>| canonical(name, in_use@));
    let mut i: usize = 0;
    while i < candidates.len()
        invariant
            i <= candidates.len(),
            folded == names(candidates@).map_values(|name: Seq<char>| canonical(name, in_use@)),
            set@ == collected(folded.take(i as int)),
        decreases candidates.len() - i,
    {
        set.insert(candidates[i].clone().canonicalise(in_use));
        assert(folded.take(i + 1).drop_last() =~= folded.take(i as int));
        i += 1;
    }
    assert(folded.take(candidates.len() as int) =~= folded);
    set.into_vec()
}

/// Names of ASCII characters are one Tag exactly when they differ at most in the
/// case of their letters.
pub proof fn a_case_variant_is_the_same_tag(a: Seq<char>, b: Seq<char>)
    requires
        text::is_ascii_text(a),
        text::is_ascii_text(b),
    ensures
        key_of(a) == key_of(b) <==> text::same_but_for_case(a, b),
{
}

/// Key, equality and order agree: two Tags have one key exactly when they are
/// equal, and exactly when neither comes before the other.
pub proof fn key_equality_and_order_agree(a: Tag, b: Tag)
    ensures
        key_of(a@) == key_of(b@) <==> vstd::std_specs::cmp::PartialEqSpec::eq_spec(&a, &b),
        key_of(a@) == key_of(b@) <==> !text::precedes(key_of(a@), key_of(b@)) && !text::precedes(
            key_of(b@),
            key_of(a@),
        ),
        key_of(a@) == text::lowercased(a@),
{
    text::the_order_of_texts_is_total(key_of(a@), key_of(b@));
}

/// Equal Tags hash alike: whatever hashing the one can do to a hasher, hashing
/// the other can, and nothing else.
pub proof fn equal_tags_hash_alike<H: Hasher>(a: Tag, b: Tag, step: &mut H)
    requires
        vstd::std_specs::cmp::PartialEqSpec::eq_spec(&a, &b),
    ensures
        is_fed::<H>(key_of(a@), step) <==> is_fed::<H>(key_of(b@), step),
{
}

// ---------------------------------------------------------------------------
// What normalising keeps
// ---------------------------------------------------------------------------

proof fn lemma_collected_holds(all: Seq<Seq<char>>)
    ensures
        in_key_order(collected(all)),
        forall|x: Seq<char>| #[trigger] collected(all).contains(x) ==> all.contains(x),
        forall|i: int| 0 <= i < all.len() ==> has_tag(collected(all), #[trigger] all[i]),
    decreases all.len(),
{
    if all.len() > 0 {
        let before = collected(all.drop_last());
        let out = collected(all);
        lemma_collected_holds(all.drop_last());
        lemma_with_name_keeps_order(before, all.last());
        lemma_with_name_holds(before, all.last());
        assert forall|x: Seq<char>| #[trigger] out.contains(x) implies all.contains(x) by {
            if before.contains(x) {
                assert(all.drop_last().contains(x));
            } else {
                assert(all[all.len() - 1] == x);
            }
        }
        assert forall|i: int| 0 <= i < all.len() implies has_tag(out, #[trigger] all[i]) by {
            if i < all.len() - 1 {
                assert(all.drop_last()[i] == all[i]);
                let k = choose|k: int|
                    0 <= k < before.len() && key_of(#[trigger] before[k]) == key_of(all[i]);
                assert(before.contains(before[k]));
                assert(out.contains(before[k]));
                let m = choose|m: int| 0 <= m < out.len() && out[m] == before[k];
                assert(key_of(out[m]) == key_of(all[i]));
            }
        }
    }
}

proof fn lemma_spelling_has_the_key(all: Seq<Seq<char>>, a: Seq<char>, b: Seq<char>)
    ensures
        spelling_in(all, a) matches Some(s) ==> key_of(s) == key_of(a) && all.contains(s),
        key_of(a) == key_of(b) ==> spelling_in(all, a) == spelling_in(all, b),
        spelling_in(all, a) is Some <==> has_tag(all, a),
    decreases all.len(),
{
    if all.len() > 0 {
        if key_of(all[0]) != key_of(a) {
            let rest = all.skip(1);
            lemma_spelling_has_the_key(rest, a, b);
            if has_tag(all, a) {
                let k = choose|k: int| 0 <= k < all.len() && key_of(#[trigger] all[k]) == key_of(a);
                assert(key_of(rest[k - 1]) == key_of(a));
            }
            if has_tag(rest, a) {
                let k = choose|k: int| 0 <= k < rest.len() && key_of(#[trigger] rest[k]) == key_of(
                    a,
                );
                assert(key_of(all[k + 1]) == key_of(a));
            }
        }
    }
}

proof fn lemma_adding_the_last(all: Seq<Seq<char>>, name: Seq<char>)
    requires
        forall|i: int| 0 <= i < all.len() ==> text::precedes(key_of(#[trigger] all[i]), key_of(name)),
    ensures
        with_name(all, name) == all.push(name),
    decreases all.len(),
{
    if all.len() > 0 {
        text::the_order_of_texts_is_total(key_of(all[0]), key_of(name));
        lemma_adding_the_last(all.skip(1), name);
        assert(with_name(all, name) =~= all.push(name));
    } else {
        assert(with_name(all, name) =~= all.push(name));
    }
}

/// Names in key order stay as they are when they are collected.
pub proof fn collecting_what_is_in_order_changes_nothing(all: Seq<Seq<char>>)
    requires
        in_key_order(all),
    ensures
        collected(all) == all,
    decreases all.len(),
{
    if all.len() > 0 {
        collecting_what_is_in_order_changes_nothing(all.drop_last());
        lemma_adding_the_last(all.drop_last(), all.last());
        assert(all.drop_last().push(all.last()) =~= all);
    } else {
        assert(collected(all) =~= all);
    }
}

/// Collecting names loses no Tag and invents none.
pub proof fn collecting_keeps_every_tag(all: Seq<Seq<char>>)
    ensures
        in_key_order(collected(all)),
        forall|x: Seq<char>| #[trigger] collected(all).contains(x) ==> all.contains(x),
        forall|i: int| 0 <= i < all.len() ==> has_tag(collected(all), #[trigger] all[i]),
{
    lemma_collected_holds(all);
}

/// The spelling a name settles on is one of the same Tag: the one in use where
/// there is one, and otherwise its own.
pub proof fn a_settled_spelling_has_its_key(name: Seq<char>, in_use: Seq<Seq<char>>)
    ensures
        key_of(canonical(name, in_use)) == key_of(name),
        has_tag(in_use, name) ==> in_use.contains(canonical(name, in_use)),
        !has_tag(in_use, name) ==> canonical(name, in_use) == name,
{
    lemma_spelling_has_the_key(in_use, name, name);
}

/// Normalising loses no Tag and invents none: every candidate is there, in
/// some spelling, and whatever is there is the settled spelling of a candidate.
/// The result is in key order, no key twice.
pub proof fn normalising_keeps_every_tag(candidates: Seq<Seq<char>>, in_use: Seq<Seq<char>>)
    ensures
        in_key_order(normalised(candidates, in_use)),
        forall|i: int|
            0 <= i < candidates.len() ==> has_tag(
                normalised(candidates, in_use),
                #[trigger] candidates[i],
            ),
        forall|x: Seq<char>| #[trigger]
            normalised(candidates, in_use).contains(x) ==> exists|i: int|
                0 <= i < candidates.len() && x == canonical(#[trigger] candidates[i], in_use),
{
    let folded = candidates.map_values(|name: Seq<char>| canonical(name, in_use));
    let out = normalised(candidates, in_use);
    lemma_collected_holds(folded);
    assert forall|i: int| 0 <= i < candidates.len() implies has_tag(out, #[trigger] candidates[i]) by {
        assert(has_tag(out, folded[i]));
        lemma_spelling_has_the_key(in_use, candidates[i], candidates[i]);
        let k = choose|k: int| 0 <= k < out.len() && key_of(#[trigger] out[k]) == key_of(folded[i]);
        assert(key_of(out[k]) == key_of(candidates[i]));
    }
    assert forall|x: Seq<char>| #[trigger] out.contains(x) implies exists|i: int|
        0 <= i < candidates.len() && x == canonical(#[trigger] candidates[i], in_use) by {
        assert(folded.contains(x));
        let i = choose|i: int| 0 <= i < folded.len() && folded[i] == x;
        assert(x == canonical(candidates[i], in_use));
    }
}

/// Normalising what has been normalised changes nothing.
pub proof fn normalising_twice_is_normalising_once(
    candidates: Seq<Seq<char>>,
    in_use: Seq<Seq<char>>,
)
    ensures
        normalised(normalised(candidates, in_use), in_use) == normalised(candidates, in_use),
{
    let out = normalised(candidates, in_use);
    normalising_keeps_every_tag(candidates, in_use);
    let folded = out.map_values(|name: Seq<char>| canonical(name, in_use));
    assert forall|k: int| 0 <= k < out.len() implies #[trigger] folded[k] == out[k] by {
        assert(out.contains(out[k]));
        let i = choose|i: int|
            0 <= i < candidates.len() && out[k] == canonical(#[trigger] candidates[i], in_use);
        lemma_spelling_has_the_key(in_use, candidates[i], out[k]);
    }
    assert(folded =~= out);
    collecting_what_is_in_order_changes_nothing(out);
}

} // verus!
