//! The words of a command line, taken apart by `pico-args`.

use vstd::prelude::*;

use crate::text;

verus! {

/// The parser of `pico-args`.
#[verifier::external_type_specification]
#[verifier::external_body]
pub struct ExArguments(pico_args::Arguments);

/// The words a parser still holds.
pub uninterp spec fn held(args: pico_args::Arguments) -> Seq<Seq<char>>;

/// The words of a command line that have not been taken yet.
///
/// They are made of strings, so every one of them is text.
pub struct Words {
    pub args: pico_args::Arguments,
}

impl View for Words {
    type V = Seq<Seq<char>>;

    open spec fn view(&self) -> Seq<Seq<char>> {
        held(self.args)
    }
}

/// Where a word first stands, or the number of words.
pub open spec fn place_of(words: Seq<Seq<char>>, word: Seq<char>) -> nat
    decreases words.len(),
{
    if words.len() == 0 || words[0] == word {
        0
    } else {
        1 + place_of(words.skip(1), word)
    }
}

/// Whether a word is there.
pub open spec fn has_word(words: Seq<Seq<char>>, word: Seq<char>) -> bool {
    place_of(words, word) < words.len()
}

/// The words without the first of one of them.
pub open spec fn without_word(words: Seq<Seq<char>>, word: Seq<char>) -> Seq<Seq<char>> {
    if has_word(words, word) {
        words.remove(place_of(words, word) as int)
    } else {
        words
    }
}

/// What is said of an option that stands last.
pub open spec fn no_value(key: Seq<char>) -> Seq<char> {
    "the '"@ + key + "' option doesn't have an associated value"@
}

/// What an option is given: the word behind it, nothing where it does not
/// stand, or what is wrong where it stands last.
pub open spec fn value_of(words: Seq<Seq<char>>, key: Seq<char>) -> Result<
    Option<Seq<char>>,
    Seq<char>,
> {
    if !has_word(words, key) {
        Ok(None)
    } else if place_of(words, key) + 1 < words.len() {
        Ok(Some(words[place_of(words, key) as int + 1]))
    } else {
        Err(no_value(key))
    }
}

/// The words without an option and what it is given.
pub open spec fn without_value(words: Seq<Seq<char>>, key: Seq<char>) -> Seq<Seq<char>> {
    if value_of(words, key) matches Ok(Some(_)) {
        words.remove(place_of(words, key) as int).remove(place_of(words, key) as int)
    } else {
        words
    }
}

/// Everything that a repeated option is given.
pub open spec fn values_of(words: Seq<Seq<char>>, key: Seq<char>) -> Result<
    Seq<Seq<char>>,
    Seq<char>,
>
    decreases words.len(),
{
    match value_of(words, key) {
        Err(why) => Err(why),
        Ok(None) => Ok(Seq::<Seq<char>>::empty()),
        Ok(Some(value)) => match values_of(without_value(words, key), key) {
            Err(why) => Err(why),
            Ok(more) => Ok(seq![value] + more),
        },
    }
}

/// The words without a repeated option and everything it is given.
pub open spec fn without_values(words: Seq<Seq<char>>, key: Seq<char>) -> Seq<Seq<char>>
    decreases words.len(),
{
    if value_of(words, key) matches Ok(Some(_)) {
        without_values(without_value(words, key), key)
    } else {
        words
    }
}

/// The word a command line begins with, if it is no option.
pub open spec fn verb_of(words: Seq<Seq<char>>) -> Option<Seq<char>> {
    if words.len() == 0 || text::starts_with(words[0], "-"@) {
        None
    } else {
        Some(words[0])
    }
}

/// The words without the one they begin with, if that is no option.
pub open spec fn without_verb(words: Seq<Seq<char>>) -> Seq<Seq<char>> {
    if verb_of(words) is Some {
        words.skip(1)
    } else {
        words
    }
}

/// Whether a key is one that the parser takes: two dashes and a name, or one
/// dash and a letter.
#[verifier::opaque]
pub open spec fn is_key(key: Seq<char>) -> bool {
    text::starts_with(key, "--"@) || (text::starts_with(key, "-"@) && key.len() == 2
        && text::is_ascii_text(key))
}

impl Words {
    /// `pico_args::Arguments::from_vec`: a parser that holds these words.
    #[verifier::external_body]
    pub(crate) fn new(words: Vec<String>) -> (r: Words)
        ensures
            held(r.args) == text::texts(words@),
    {
        Words { args: pico_args::Arguments::from_vec(words.into_iter().map(Into::into).collect()) }
    }

    /// `pico_args::Arguments::contains` for one key: whether a flag is there,
    /// taking its first occurrence away.
    #[verifier::external_body]
    pub(crate) fn take_flag(&mut self, key: &'static str) -> (r: bool)
        requires
            is_key(key@),
        ensures
            r == has_word(held(old(self).args), key@),
            held(final(self).args) == without_word(held(old(self).args), key@),
    {
        self.args.contains(key)
    }

    /// `pico_args::Arguments::opt_value_from_str`, for text: what an option is
    /// given, taking both away. An option that stands last is an error, in the
    /// parser's words, and nothing is taken.
    #[verifier::external_body]
    pub(crate) fn take_value(&mut self, key: &'static str) -> (r: Result<Option<String>, String>)
        requires
            is_key(key@),
        ensures
            match r {
                Ok(Some(value)) => value_of(held(old(self).args), key@)
                    == Ok::<Option<Seq<char>>, Seq<char>>(
                    Some(value@),
                ),
                Ok(None) => value_of(held(old(self).args), key@)
                    == Ok::<Option<Seq<char>>, Seq<char>>(None),
                Err(why) => value_of(held(old(self).args), key@)
                    == Err::<Option<Seq<char>>, Seq<char>>(why@),
            },
            held(final(self).args) == without_value(held(old(self).args), key@),
    {
        self.args.opt_value_from_str::<_, String>(key).map_err(|err| err.to_string())
    }

    /// `pico_args::Arguments::values_from_str`, for text: everything a repeated
    /// option is given, taking each away with its option.
    #[verifier::external_body]
    pub(crate) fn take_values(&mut self, key: &'static str) -> (r: Result<Vec<String>, String>)
        requires
            is_key(key@),
        ensures
            match r {
                Ok(values) => values_of(held(old(self).args), key@)
                    == Ok::<Seq<Seq<char>>, Seq<char>>(
                    text::texts(values@),
                ),
                Err(why) => values_of(held(old(self).args), key@)
                    == Err::<Seq<Seq<char>>, Seq<char>>(why@),
            },
            held(final(self).args) == without_values(held(old(self).args), key@),
    {
        self.args.values_from_str::<_, String>(key).map_err(|err| err.to_string())
    }

    /// `pico_args::Arguments::subcommand`: the word the line begins with, unless
    /// it is an option, taking it away. The words are text, so it is no error.
    #[verifier::external_body]
    pub(crate) fn take_verb(&mut self) -> (r: Result<Option<String>, String>)
        ensures
            match r {
                Ok(Some(verb)) => verb_of(held(old(self).args)) == Some(verb@),
                Ok(None) => verb_of(held(old(self).args)) is None,
                Err(_) => false,
            },
            held(final(self).args) == without_verb(held(old(self).args)),
    {
        self.args.subcommand().map_err(|err| err.to_string())
    }

    /// `pico_args::Arguments::finish`: the words that are left.
    #[verifier::external_body]
    pub(crate) fn finish(self) -> (r: Vec<String>)
        ensures
            text::texts(r@) == held(self.args),
    {
        self.args.finish().into_iter().map(|word| word.to_string_lossy().into_owned()).collect()
    }
}

} // verus!
