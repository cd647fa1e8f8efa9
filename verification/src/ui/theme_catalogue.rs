//! The set of named themes the user can choose from.
//!
//! The catalogue is two lists, one per mode, because a light theme and a dark
//! theme are independent choices, and because the families are uneven: over
//! half of them have only one mode, so pairing them up would strand most.

use vstd::prelude::*;

use crate::text;
use crate::ui::preferences::ThemeMode;

verus! {

/// One selectable theme: a display name, and which of the loaded themes it is.
///
/// Themes are identified by display name, which is also what gets persisted, so
/// a stored value survives reordering of the catalogue.
#[derive(Debug, PartialEq, Eq)]
pub struct ThemeChoice {
    pub name: String,
    pub config: usize,
}

/// A selectable theme, as the contracts speak of it.
#[verifier::ext_equal]
pub struct ThemeModel {
    pub name: Seq<char>,
    pub config: usize,
}

impl View for ThemeChoice {
    type V = ThemeModel;

    open spec fn view(&self) -> ThemeModel {
        ThemeModel { name: self.name@, config: self.config }
    }
}

impl Clone for ThemeChoice {
    fn clone(&self) -> (r: ThemeChoice)
        ensures
            r@ == self@,
    {
        ThemeChoice { name: self.name.clone(), config: self.config }
    }
}

/// The models of some themes.
pub open spec fn themes(choices: Seq<ThemeChoice>) -> Seq<ThemeModel> {
    choices.map_values(|c: ThemeChoice| c@)
}

/// Where a name sorts: without regard to case.
pub open spec fn sort_key(name: Seq<char>) -> Seq<char> {
    text::lowercased(name)
}

/// Themes in order with one more at its place, behind those it ties with.
pub open spec fn shelved(list: Seq<ThemeModel>, one: ThemeModel) -> Seq<ThemeModel>
    decreases list.len(),
{
    if list.len() == 0 || !text::precedes(sort_key(one.name), sort_key(list.last().name)) {
        list.push(one)
    } else {
        shelved(list.drop_last(), one).push(list.last())
    }
}

/// Themes sorted by name, those that tie in the order they came.
pub open spec fn sorted(list: Seq<ThemeModel>) -> Seq<ThemeModel>
    decreases list.len(),
{
    if list.len() == 0 {
        Seq::<ThemeModel>::empty()
    } else {
        shelved(sorted(list.drop_last()), list.last())
    }
}

/// Whether themes stand in order of name.
pub open spec fn in_name_order(list: Seq<ThemeModel>) -> bool {
    forall|i: int, j: int|
        0 <= i < j < list.len() ==> !text::precedes(
            sort_key((#[trigger] list[j]).name),
            sort_key((#[trigger] list[i]).name),
        )
}

/// The first theme of a name.
pub open spec fn named(list: Seq<ThemeModel>, name: Seq<char>) -> Option<int>
    decreases list.len(),
{
    if list.len() == 0 {
        None
    } else {
        match named(list.drop_last(), name) {
            Some(i) => Some(i),
            None => if list.last().name == name {
                Some(list.len() - 1)
            } else {
                None
            },
        }
    }
}

/// Whether a theme matches a search: a blank one matches everything.
pub open spec fn matches(one: ThemeModel, query: Seq<char>) -> bool {
    let needle = text::lowercased(text::trimmed(query));
    needle.len() == 0 || text::holds(sort_key(one.name), needle)
}

/// The themes a search leaves.
pub open spec fn searched(list: Seq<ThemeModel>, query: Seq<char>) -> Seq<ThemeModel> {
    list.filter(|c: ThemeModel| matches(c, query))
}

/// The themes among some that are for a mode.
pub open spec fn of_mode(loaded: Seq<(ThemeMode, ThemeModel)>, mode: ThemeMode) -> Seq<ThemeModel>
    decreases loaded.len(),
{
    if loaded.len() == 0 {
        Seq::<ThemeModel>::empty()
    } else if loaded.last().0 == mode {
        of_mode(loaded.drop_last(), mode).push(loaded.last().1)
    } else {
        of_mode(loaded.drop_last(), mode)
    }
}

/// The models of some themes with their modes.
pub open spec fn loaded_themes(loaded: Seq<(ThemeMode, ThemeChoice)>) -> Seq<
    (ThemeMode, ThemeModel),
> {
    loaded.map_values(|l: (ThemeMode, ThemeChoice)| (l.0, l.1@))
}

/// Puts one more theme at its place.
fn shelve(list: &mut Vec<ThemeChoice>, one: ThemeChoice)
    ensures
        themes(final(list)@) == shelved(themes(old(list)@), one@),
{
    let key = text::to_lowercase(one.name.as_str());
    let ghost all = themes(list@);
    let mut at: usize = list.len();
    assert(all.take(at as int) =~= all);
    assert(shelved(all.take(at as int), one@) + all.skip(at as int) =~= shelved(all, one@));
    while at > 0 && text::is_before(
        key.as_str(),
        text::to_lowercase(list[at - 1].name.as_str()).as_str(),
    )
        invariant
            at <= list.len(),
            all == themes(list@),
            key@ == sort_key(one@.name),
            shelved(all, one@) == shelved(all.take(at as int), one@) + all.skip(at as int),
        decreases at,
    {
        proof {
            let head = all.take(at as int);
            assert(head.last() == list@[at - 1]@);
            assert(head.drop_last() =~= all.take(at - 1));
            assert(shelved(head.drop_last(), one@).push(head.last()) + all.skip(at as int)
                =~= shelved(all.take(at - 1), one@) + all.skip(at - 1));
        }
        at -= 1;
    }
    proof {
        let head = all.take(at as int);
        if at > 0 {
            assert(head.last() == list@[at - 1]@);
        }
        assert(shelved(head, one@) =~= head.push(one@));
    }
    let ghost before = list@;
    let ghost added = one;
    list.insert(at, one);
    assert(list@ =~= before.insert(at as int, added));
    assert(themes(list@) =~= all.take(at as int).push(added@) + all.skip(at as int));
}

/// The first theme of a name.
fn position_of(list: &Vec<ThemeChoice>, name: &str) -> (r: Option<usize>)
    ensures
        match r {
            Some(i) => i < list@.len() && named(themes(list@), name@) == Some(i as int),
            None => named(themes(list@), name@) is None,
        },
{
    let ghost all = themes(list@);
    let mut i: usize = 0;
    while i < list.len()
        invariant
            i <= list.len(),
            all == themes(list@),
            named(all.take(i as int), name@) is None,
        decreases list.len() - i,
    {
        assert(all.take(i + 1).drop_last() =~= all.take(i as int));
        assert(all.take(i + 1).last() == list@[i as int]@);
        if text::same(list[i].name.as_str(), name) {
            proof {
                lemma_named_early(all, i + 1, name@);
            }
            return Some(i);
        }
        i += 1;
    }
    assert(all.take(i as int) =~= all);
    None
}

proof fn lemma_named_early(all: Seq<ThemeModel>, upto: int, name: Seq<char>)
    requires
        0 <= upto <= all.len(),
        named(all.take(upto), name) is Some,
    ensures
        named(all, name) == named(all.take(upto), name),
    decreases all.len() - upto,
{
    if upto == all.len() {
        assert(all.take(upto) =~= all);
    } else {
        assert(all.take(upto + 1).drop_last() =~= all.take(upto));
        lemma_named_early(all, upto + 1, name);
    }
}

fn clone_themes(list: &Vec<ThemeChoice>) -> (r: Vec<ThemeChoice>)
    ensures
        themes(r@) == themes(list@),
{
    let mut out: Vec<ThemeChoice> = Vec::new();
    let mut i: usize = 0;
    while i < list.len()
        invariant
            i <= list.len(),
            out@.len() == i,
            forall|k: int| 0 <= k < i ==> (#[trigger] out@[k])@ == list@[k]@,
        decreases list.len() - i,
    {
        out.push(list[i].clone());
        i += 1;
    }
    assert(themes(out@) =~= themes(list@));
    out
}

/// Backs one picker: all themes for a single mode, and those that match the
/// current search.
#[derive(Debug)]
pub struct ThemeListDelegate {
    all: Vec<ThemeChoice>,
    matching: Vec<ThemeChoice>,
}

impl ThemeListDelegate {
    /// All the themes.
    pub closed spec fn spec_all(&self) -> Seq<ThemeModel> {
        themes(self.all@)
    }

    /// The themes that match the current search.
    pub closed spec fn spec_matching(&self) -> Seq<ThemeModel> {
        themes(self.matching@)
    }

    /// A picker with nothing searched for yet.
    pub fn new(all: Vec<ThemeChoice>) -> (r: ThemeListDelegate)
        ensures
            r.spec_all() == themes(all@),
            r.spec_matching() == themes(all@),
    {
        let matching = clone_themes(&all);
        ThemeListDelegate { all, matching }
    }

    /// Index of a theme in the unfiltered list, for seeding the initial
    /// selection.
    pub fn index_of(&self, name: &str) -> (r: Option<usize>)
        ensures
            match r {
                Some(i) => named(self.spec_all(), name@) == Some(i as int),
                None => named(self.spec_all(), name@) is None,
            },
    {
        position_of(&self.all, name)
    }

    /// How many themes match.
    pub fn items_count(&self) -> (n: usize)
        ensures
            n == self.spec_matching().len(),
    {
        self.matching.len()
    }

    /// One of the themes that match.
    pub fn item(&self, row: usize) -> (r: Option<&ThemeChoice>)
        ensures
            match r {
                Some(one) => row < self.spec_matching().len() && one@
                    == self.spec_matching()[row as int],
                None => row >= self.spec_matching().len(),
            },
    {
        if row < self.matching.len() {
            Some(&self.matching[row])
        } else {
            None
        }
    }

    /// Index of a theme among those that match.
    pub fn position(&self, name: &str) -> (r: Option<usize>)
        ensures
            match r {
                Some(i) => named(self.spec_matching(), name@) == Some(i as int),
                None => named(self.spec_matching(), name@) is None,
            },
    {
        position_of(&self.matching, name)
    }

    /// Leaves the themes whose name contains a text, ignoring case and
    /// surrounding space.
    pub fn perform_search(&mut self, query: &str)
        ensures
            final(self).spec_all() == old(self).spec_all(),
            final(self).spec_matching() == searched(old(self).spec_all(), query@),
    {
        let needle = text::to_lowercase(text::trim(query).as_str());
        let blank = text::char_count(needle.as_str()) == 0;
        let ghost all = themes(self.all@);
        let ghost pass = |c: ThemeModel| matches(c, query@);
        let mut out: Vec<ThemeChoice> = Vec::new();
        let mut i: usize = 0;
        proof {
            crate::domain::narrowing::lemma_filter_step(all, pass, 0);
        }
        while i < self.all.len()
            invariant
                i <= self.all.len(),
                all == themes(self.all@),
                pass == (|c: ThemeModel| matches(c, query@)),
                needle@ == text::lowercased(text::trimmed(query@)),
                blank == (needle@.len() == 0),
                themes(out@) == all.take(i as int).filter(pass),
            decreases self.all.len() - i,
        {
            proof {
                crate::domain::narrowing::lemma_filter_step(all, pass, i as int);
            }
            assert(all[i as int] == self.all@[i as int]@);
            if blank || text::contains(
                text::to_lowercase(self.all[i].name.as_str()).as_str(),
                needle.as_str(),
            ) {
                let ghost had = themes(out@);
                out.push(self.all[i].clone());
                assert(themes(out@) =~= had.push(all[i as int]));
            }
            i += 1;
        }
        assert(all.take(i as int) =~= all);
        self.matching = out;
    }
}

/// Every theme, split by the mode it applies to.
#[derive(Debug)]
pub struct ThemeCatalogue {
    light: Vec<ThemeChoice>,
    dark: Vec<ThemeChoice>,
}

impl ThemeCatalogue {
    /// The themes for a mode, in order of name.
    pub closed spec fn shelf(&self, mode: ThemeMode) -> Seq<ThemeModel> {
        match mode {
            ThemeMode::Light => themes(self.light@),
            ThemeMode::Dark => themes(self.dark@),
        }
    }

    /// Splits the themes that were loaded by mode, and sorts each list by name.
    pub fn of(loaded: Vec<(ThemeMode, ThemeChoice)>) -> (r: ThemeCatalogue)
        ensures
            forall|mode: ThemeMode| #[trigger]
                r.shelf(mode) == sorted(of_mode(loaded_themes(loaded@), mode)),
    {
        let ghost all = loaded_themes(loaded@);
        let mut light: Vec<ThemeChoice> = Vec::new();
        let mut dark: Vec<ThemeChoice> = Vec::new();
        let mut i: usize = 0;
        assert(themes(light@) =~= sorted(of_mode(all.take(0), ThemeMode::Light)));
        assert(themes(dark@) =~= sorted(of_mode(all.take(0), ThemeMode::Dark)));
        while i < loaded.len()
            invariant
                i <= loaded.len(),
                all == loaded_themes(loaded@),
                themes(light@) == sorted(of_mode(all.take(i as int), ThemeMode::Light)),
                themes(dark@) == sorted(of_mode(all.take(i as int), ThemeMode::Dark)),
            decreases loaded.len() - i,
        {
            proof {
                let next = all.take(i + 1);
                assert(next.drop_last() =~= all.take(i as int));
                assert(next.last() == (loaded@[i as int].0, loaded@[i as int].1@));
                let l = of_mode(all.take(i as int), ThemeMode::Light);
                let d = of_mode(all.take(i as int), ThemeMode::Dark);
                assert(l.push(next.last().1).drop_last() =~= l);
                assert(d.push(next.last().1).drop_last() =~= d);
            }
            let one = loaded[i].1.clone();
            match loaded[i].0 {
                ThemeMode::Light => shelve(&mut light, one),
                ThemeMode::Dark => shelve(&mut dark, one),
            }
            i += 1;
        }
        assert(all.take(i as int) =~= all);
        ThemeCatalogue { light, dark }
    }

    /// The themes for a mode, in order of name.
    pub fn for_mode(&self, mode: ThemeMode) -> (r: &Vec<ThemeChoice>)
        ensures
            themes(r@) == self.shelf(mode),
    {
        match mode {
            ThemeMode::Light => &self.light,
            ThemeMode::Dark => &self.dark,
        }
    }

    /// Looks up a theme by display name within a mode.
    ///
    /// `None` when a persisted name no longer exists, so callers can fall back
    /// to the default rather than failing.
    pub fn find(&self, mode: ThemeMode, name: &str) -> (r: Option<&ThemeChoice>)
        ensures
            match r {
                Some(one) => named(self.shelf(mode), name@) is Some && one@ == self.shelf(
                    mode,
                )[named(self.shelf(mode), name@)->Some_0],
                None => named(self.shelf(mode), name@) is None,
            },
    {
        let list = self.for_mode(mode);
        match position_of(list, name) {
            Some(i) => {
                assert(themes(list@)[i as int] == list@[i as int]@);
                Some(&list[i])
            },
            None => None,
        }
    }
}

// ---------------------------------------------------------------------------
// Laws
// ---------------------------------------------------------------------------

proof fn lemma_shelving_keeps_order(list: Seq<ThemeModel>, one: ThemeModel)
    requires
        in_name_order(list),
    ensures
        in_name_order(shelved(list, one)),
        shelved(list, one).to_multiset() == list.to_multiset().insert(one),
        forall|x: ThemeModel| #[trigger]
            shelved(list, one).contains(x) ==> list.contains(x) || x == one,
    decreases list.len(),
{
    broadcast use vstd::seq_lib::group_to_multiset_ensures;

    let out = shelved(list, one);
    if list.len() == 0 || !text::precedes(sort_key(one.name), sort_key(list.last().name)) {
        assert forall|i: int, j: int| 0 <= i < j < out.len() implies !text::precedes(
            sort_key((#[trigger] out[j]).name),
            sort_key((#[trigger] out[i]).name),
        ) by {
            if j == list.len() {
                let (x, y, z) = (
                    sort_key(one.name),
                    sort_key(list[i].name),
                    sort_key(list.last().name),
                );
                if text::precedes(x, y) {
                    if i < list.len() - 1 {
                        assert(!text::precedes(sort_key(list[list.len() - 1].name), y));
                    }
                    text::the_order_of_texts_is_total(y, z);
                    if y != z {
                        text::the_order_of_texts_is_transitive(x, y, z);
                    }
                }
            } else {
                assert(out[i] == list[i] && out[j] == list[j]);
            }
        }
        assert forall|x: ThemeModel| #[trigger] out.contains(x) implies list.contains(x) || x
            == one by {
            let k = choose|k: int| 0 <= k < out.len() && out[k] == x;
            if k < list.len() {
                assert(list[k] == x);
            }
        }
    } else {
        let rest = list.drop_last();
        assert forall|i: int, j: int| 0 <= i < j < rest.len() implies !text::precedes(
            sort_key((#[trigger] rest[j]).name),
            sort_key((#[trigger] rest[i]).name),
        ) by {
            assert(rest[i] == list[i] && rest[j] == list[j]);
        }
        lemma_shelving_keeps_order(rest, one);
        let head = shelved(rest, one);
        assert forall|i: int, j: int| 0 <= i < j < out.len() implies !text::precedes(
            sort_key((#[trigger] out[j]).name),
            sort_key((#[trigger] out[i]).name),
        ) by {
            if j == head.len() {
                assert(out[i] == head[i]);
                assert(head.contains(head[i]));
                if rest.contains(head[i]) {
                    let k = choose|k: int| 0 <= k < rest.len() && rest[k] == head[i];
                    assert(rest[k] == list[k]);
                    assert(!text::precedes(
                        sort_key(list[list.len() - 1].name),
                        sort_key(list[k].name),
                    ));
                } else {
                    text::the_order_of_texts_is_total(
                        sort_key(one.name),
                        sort_key(list.last().name),
                    );
                }
            } else {
                assert(out[j] == head[j] && out[i] == head[i]);
            }
        }
        assert forall|x: ThemeModel| #[trigger] out.contains(x) implies list.contains(x) || x
            == one by {
            let k = choose|k: int| 0 <= k < out.len() && out[k] == x;
            if k < head.len() {
                assert(head[k] == x);
                assert(head.contains(x));
                if rest.contains(x) {
                    let m = choose|m: int| 0 <= m < rest.len() && rest[m] == x;
                    assert(list[m] == x);
                }
            } else {
                assert(list[list.len() - 1] == x);
            }
        }
        assert(list =~= rest.push(list.last()));
        assert(out.to_multiset() =~= list.to_multiset().insert(one));
    }
}

/// Law: each shelf is in order of name, and holds exactly the themes that were
/// loaded for its mode.
pub proof fn a_shelf_is_sorted(list: Seq<ThemeModel>)
    ensures
        in_name_order(sorted(list)),
        sorted(list).to_multiset() == list.to_multiset(),
    decreases list.len(),
{
    broadcast use vstd::seq_lib::group_to_multiset_ensures;

    if list.len() > 0 {
        a_shelf_is_sorted(list.drop_last());
        lemma_shelving_keeps_order(sorted(list.drop_last()), list.last());
        assert(list =~= list.drop_last().push(list.last()));
    } else {
        assert(sorted(list) =~= list);
    }
}

/// Law: a theme that is found has the name that was asked for, and is the first
/// that has it.
pub proof fn a_found_theme_has_the_name(list: Seq<ThemeModel>, name: Seq<char>)
    ensures
        match named(list, name) {
            Some(i) => 0 <= i < list.len() && list[i].name == name && forall|j: int|
                0 <= j < i ==> (#[trigger] list[j]).name != name,
            None => forall|j: int| 0 <= j < list.len() ==> (#[trigger] list[j]).name != name,
        },
    decreases list.len(),
{
    if list.len() > 0 {
        a_found_theme_has_the_name(list.drop_last(), name);
        assert forall|j: int| 0 <= j < list.len() - 1 implies list.drop_last()[j]
            == #[trigger] list[j] by {}
    }
}

/// Law: a blank search leaves everything.
pub proof fn a_blank_search_leaves_everything(list: Seq<ThemeModel>, query: Seq<char>)
    requires
        text::trimmed(query).len() == 0,
    ensures
        searched(list, query) == list,
    decreases list.len(),
{
    reveal(Seq::filter);
    assert(text::trimmed(query) =~= Seq::<char>::empty());
    if list.len() > 0 {
        a_blank_search_leaves_everything(list.drop_last(), query);
        assert(list.drop_last().push(list.last()) =~= list);
    } else {
        assert(searched(list, query) =~= list);
    }
}

} // verus!
