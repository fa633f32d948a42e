//! Reading an element from the word that names it in a configuration.
//!
//! Numbers are read by `str::parse`. The function that calls it says in its
//! contract what the documentation of the standard library says; that
//! contract is taken on trust.

use crate::element::{Date, Element, PlaybackState, Time};
use crate::history::History;
use crate::text::{chars_of, find_char, first_index, same_text};
use vstd::prelude::*;
use vstd::string::StringExecFns;

verus! {

/// Makes `std::num::ParseIntError` known as a type whose inside is not
/// looked into.
#[verifier::external_type_specification]
#[verifier::external_body]
pub struct ExIntegerError(std::num::ParseIntError);

/// Why a word does not name an element.
#[derive(Debug)]
pub enum ElementParseError {
    /// The argument of `padding` or `cpugraph` is not a number that fits.
    BadInteger(std::num::ParseIntError),
    /// A word without an argument that names no element.
    UnknownElementName(String),
    /// A word with an argument whose name takes none, or names no element.
    UnknownArgumentedElementName(String),
}

/// `text` without the closing parentheses at its end.
pub open spec fn trimmed_end(text: Seq<char>) -> Seq<char>
    decreases text.len(),
{
    if text.len() > 0 && text.last() == ')' {
        trimmed_end(text.drop_last())
    } else {
        text
    }
}

/// The word has an argument: it holds an opening parenthesis and ends with a
/// closing one.
pub open spec fn has_argument(word: Seq<char>) -> bool {
    first_index(word, '(') < word.len() && word.last() == ')'
}

/// The name of a word with an argument: what stands before the first
/// opening parenthesis.
pub open spec fn name_of(word: Seq<char>) -> Seq<char> {
    word.subrange(0, first_index(word, '('))
}

/// The argument of a word that has one: what stands after the first opening
/// parenthesis, without the closing parentheses at the end.
pub open spec fn argument_of(word: Seq<char>) -> Seq<char> {
    trimmed_end(word.subrange(first_index(word, '(') + 1, word.len() as int))
}

/// The digits of a numeral: the text without a plus sign in front.
pub open spec fn digits_of(text: Seq<char>) -> Seq<char> {
    if text.len() > 0 && text[0] == '+' {
        text.drop_first()
    } else {
        text
    }
}

/// The text is a numeral: one decimal digit at least, after at most one plus
/// sign, and nothing else.
pub open spec fn is_number(text: Seq<char>) -> bool {
    let digits = digits_of(text);
    digits.len() > 0 && forall|i: int|
        0 <= i < digits.len() ==> 0x30 <= (#[trigger] digits[i]) as u32 <= 0x39
}

/// The number that a sequence of decimal digits stands for.
pub open spec fn digits_value(digits: Seq<char>) -> nat
    decreases digits.len(),
{
    if digits.len() == 0 {
        0
    } else {
        10 * digits_value(digits.drop_last()) + ((digits.last() as u32) - 0x30) as nat
    }
}

/// The text is a numeral of a number that fits a machine word.
pub open spec fn is_word_sized_number(text: Seq<char>) -> bool {
    is_number(text) && digits_value(digits_of(text)) <= usize::MAX
}

/// A graph that has recorded nothing yet: `len` samples of zero.
pub open spec fn blank_samples(len: nat) -> Seq<u32> {
    Seq::new(len, |i: int| 0u32)
}

/// Whether `result` is what reading `word` gives.
///
/// A word with an argument is `padding(<width>)`, `label(<text>)` or
/// `cpugraph(<width>)`, where a width is a numeral. Any other name before
/// the parenthesis is an error that carries the name, and a width that is no
/// numeral, or too large, is a bad integer. A word without an argument is
/// one of `space`, `date`, `time`, `battery`, `mem`, `cpu` and
/// `playbackstate`, each with its first value, and any other is an error
/// that carries the word.
pub open spec fn reads_as(word: Seq<char>, result: Result<Element, ElementParseError>) -> bool {
    if has_argument(word) {
        let name = name_of(word);
        let argument = argument_of(word);
        if name == "padding"@ {
            match result {
                Ok(Element::Padding(width)) => is_word_sized_number(argument) && width
                    == digits_value(digits_of(argument)),
                Err(ElementParseError::BadInteger(_)) => !is_word_sized_number(argument),
                _ => false,
            }
        } else if name == "label"@ {
            result matches Ok(Element::Label(text)) && text@ == argument
        } else if name == "cpugraph"@ {
            match result {
                Ok(Element::CpuGraph(history)) => is_word_sized_number(argument) && history@
                    == blank_samples(digits_value(digits_of(argument))),
                Err(ElementParseError::BadInteger(_)) => !is_word_sized_number(argument),
                _ => false,
            }
        } else {
            result matches Err(ElementParseError::UnknownArgumentedElementName(text)) && text@
                == name
        }
    } else if word == "space"@ {
        result matches Ok(Element::Space)
    } else if word == "date"@ {
        result matches Ok(Element::Date(date)) && date == first_date()
    } else if word == "time"@ {
        result matches Ok(Element::Time(time)) && time == first_time()
    } else if word == "battery"@ {
        result matches Ok(Element::Battery(Some(0)))
    } else if word == "mem"@ {
        result matches Ok(Element::Mem(Some(0)))
    } else if word == "cpu"@ {
        result matches Ok(Element::Cpu(Some(0)))
    } else if word == "playbackstate"@ {
        result matches Ok(Element::PlaybackState(PlaybackState::Stop))
    } else {
        result matches Err(ElementParseError::UnknownElementName(text)) && text@ == word
    }
}

/// The date that a date element shows before its first reading.
pub open spec fn first_date() -> Date {
    Date { year: 1970, month: 1, day: 1 }
}

/// The time that a time element shows before its first reading.
pub open spec fn first_time() -> Time {
    Time { hour: 0, minute: 0, second: 0 }
}

/// Calls `str::parse` for `usize`, which accepts one decimal digit at least
/// after at most one plus sign, provided that the number fits, and gives
/// the number that the digits stand for.
#[verifier::external_body]
fn parse_usize(text: &str) -> (parsed: Result<usize, std::num::ParseIntError>)
    ensures
        parsed is Ok <==> is_word_sized_number(text@),
        parsed matches Ok(value) ==> value == digits_value(digits_of(text@)),
{
    text.parse::<usize>()
}

/// Calls `to_string` on the error of a failed integer parse.
#[verifier::external_body]
pub(crate) fn integer_error_text(error: &std::num::ParseIntError) -> (text: String) {
    error.to_string()
}

/// The end of what is left of `word` from `start` on when the closing
/// parentheses at its end are taken off.
fn trim_parens(word: &Vec<char>, start: usize) -> (end: usize)
    requires
        start <= word@.len(),
    ensures
        start <= end <= word@.len(),
        word@.subrange(start as int, end as int) == trimmed_end(
            word@.subrange(start as int, word@.len() as int),
        ),
{
    let mut end: usize = word.len();
    while end > start && word[end - 1] == ')'
        invariant
            start <= end <= word@.len(),
            trimmed_end(word@.subrange(start as int, end as int)) == trimmed_end(
                word@.subrange(start as int, word@.len() as int),
            ),
        decreases end,
    {
        proof {
            let part = word@.subrange(start as int, end as int);
            assert(part.drop_last() =~= word@.subrange(start as int, end - 1));
        }
        end -= 1;
    }
    end
}

/// Reads an element from the word that names it.
pub fn parse_element(word: &str) -> (parsed: Result<Element, ElementParseError>)
    ensures
        reads_as(word@, parsed),
{
    let chars = chars_of(word);
    let len = chars.len();
    let open = find_char(&chars, '(');
    if open < len && chars[len - 1] == ')' {
        let end = trim_parens(&chars, open + 1);
        let name = word.substring_char(0, open);
        let argument = word.substring_char(open + 1, end);
        if same_text(name, "padding") {
            match parse_usize(argument) {
                Ok(width) => Ok(Element::Padding(width)),
                Err(e) => Err(ElementParseError::BadInteger(e)),
            }
        } else if same_text(name, "label") {
            Ok(Element::Label(argument.to_owned()))
        } else if same_text(name, "cpugraph") {
            match parse_usize(argument) {
                Ok(width) => {
                    let history: History<u32> = History::new(width);
                    assert(history@ =~= blank_samples(width as nat));
                    Ok(Element::CpuGraph(history))
                },
                Err(e) => Err(ElementParseError::BadInteger(e)),
            }
        } else {
            Err(ElementParseError::UnknownArgumentedElementName(name.to_owned()))
        }
    } else if same_text(word, "space") {
        Ok(Element::Space)
    } else if same_text(word, "date") {
        Ok(Element::Date(Date { year: 1970, month: 1, day: 1 }))
    } else if same_text(word, "time") {
        Ok(Element::Time(Time { hour: 0, minute: 0, second: 0 }))
    } else if same_text(word, "battery") {
        Ok(Element::Battery(Some(0)))
    } else if same_text(word, "mem") {
        Ok(Element::Mem(Some(0)))
    } else if same_text(word, "cpu") {
        Ok(Element::Cpu(Some(0)))
    } else if same_text(word, "playbackstate") {
        Ok(Element::PlaybackState(PlaybackState::Stop))
    } else {
        Err(ElementParseError::UnknownElementName(word.to_owned()))
    }
}

impl ElementParseError {
    /// The error in words. An unknown name is quoted; for a bad integer the
    /// words are those of the integer parser.
    pub fn message(&self) -> (text: String)
        ensures
            self matches ElementParseError::UnknownElementName(name) ==> text@
                == "unknown element name '"@ + name@ + "'"@,
            self matches ElementParseError::UnknownArgumentedElementName(name) ==> text@
                == "unknown argumented element name '"@ + name@ + "'"@,
    {
        match self {
            ElementParseError::BadInteger(e) => integer_error_text(e),
            ElementParseError::UnknownElementName(name) => {
                let mut text = String::from_str("unknown element name '");
                text.append(name.as_str());
                text.append("'");
                text
            },
            ElementParseError::UnknownArgumentedElementName(name) => {
                let mut text = String::from_str("unknown argumented element name '");
                text.append(name.as_str());
                text.append("'");
                text
            },
        }
    }
}

impl std::str::FromStr for Element {
    type Err = ElementParseError;

    /// Reads an element as [`parse_element`] does.
    fn from_str(word: &str) -> (parsed: Result<Self, Self::Err>)
        ensures
            reads_as(word@, parsed),
    {
        parse_element(word)
    }
}

} // verus!
