//! The settings of a configuration: what each keyword takes as its
//! argument, and how colours and positions are written.
//!
//! Numbers are read by `str::parse` and `u32::from_str_radix`, and white
//! space is what `char::is_whitespace` says. The functions that call them
//! say in their contracts what the documentation of the standard library
//! says, for white space with the characters that Unicode gives the
//! property; those contracts are taken on trust.

use crate::block::Pixel;
use crate::parse::{digits_of, digits_value, integer_error_text, is_number};
use crate::text::{chars_of, find_char, find_char_from, first_index, next_index, same_text};
use vstd::prelude::*;
use vstd::string::StringExecFns;

verus! {

/// One setting, as a keyword and its arguments give it.
#[derive(Debug)]
pub enum Setting {
    /// The words that name the elements of the display, in order.
    Elements(Vec<String>),
    /// The name of a font file in the default font directory.
    FontName(String),
    /// The path of a font file.
    FontPath(String),
    /// The colour of set pixels.
    Foreground(Pixel),
    /// The colour of the other pixels.
    Background(Pixel),
    /// The position of the window, as x and y.
    Position(u32, u32),
    /// The address of the music player.
    MpdAddr(String),
}

/// Why a keyword and its arguments give no setting.
#[derive(Debug)]
pub enum SettingError {
    /// The keyword has no argument.
    MissingArgument,
    /// A colour does not begin with `0x`.
    MissingColorPrefix,
    /// What follows `0x` is not a hexadecimal number of 32 bits.
    BadColor(std::num::ParseIntError),
    /// A position has no comma.
    BadPosition,
    /// What stands before the comma of a position is no 32-bit number.
    BadPositionX(std::num::ParseIntError),
    /// What stands after the comma of a position is no 32-bit number.
    BadPositionY(std::num::ParseIntError),
    /// The keyword names no setting.
    UnknownKeyword(String),
}

/// The value of a hexadecimal digit, in either case.
pub open spec fn hex_digit(ch: char) -> Option<nat> {
    let code = ch as u32;
    if 0x30 <= code <= 0x39 {
        Some((code - 0x30) as nat)
    } else if 0x61 <= code <= 0x66 {
        Some((code - 0x61 + 10) as nat)
    } else if 0x41 <= code <= 0x46 {
        Some((code - 0x41 + 10) as nat)
    } else {
        None
    }
}

/// The text is a hexadecimal numeral: one digit at least, after at most one
/// plus sign, and nothing else.
pub open spec fn is_hex_number(text: Seq<char>) -> bool {
    let digits = digits_of(text);
    digits.len() > 0 && forall|i: int| 0 <= i < digits.len() ==> hex_digit(#[trigger] digits[i]) is Some
}

/// The number that a sequence of hexadecimal digits stands for.
pub open spec fn hex_value(digits: Seq<char>) -> nat
    decreases digits.len(),
{
    if digits.len() == 0 {
        0
    } else {
        16 * hex_value(digits.drop_last()) + hex_digit(digits.last())->0
    }
}

/// The text is a hexadecimal numeral of a number of 32 bits.
pub open spec fn is_hex_u32(text: Seq<char>) -> bool {
    is_hex_number(text) && hex_value(digits_of(text)) <= u32::MAX
}

/// The text is a decimal numeral of a number of 32 bits.
pub open spec fn is_decimal_u32(text: Seq<char>) -> bool {
    is_number(text) && digits_value(digits_of(text)) <= u32::MAX
}

/// The pixel holds the four bytes of `value`, the most significant first.
pub open spec fn is_colour(pixel: Pixel, value: nat) -> bool {
    &&& pixel[0] == value / 0x100_0000
    &&& pixel[1] == (value / 0x1_0000) % 0x100
    &&& pixel[2] == (value / 0x100) % 0x100
    &&& pixel[3] == value % 0x100
}

/// Whether `result` is what reading `text` as a colour gives. A colour is
/// written as `0x` and a hexadecimal number of 32 bits, whose four bytes are
/// red, green, blue and alpha.
pub open spec fn reads_as_colour(text: Seq<char>, result: Result<Pixel, SettingError>) -> bool {
    if text.len() >= 2 && text[0] == '0' && text[1] == 'x' {
        let number = text.subrange(2, text.len() as int);
        match result {
            Ok(pixel) => is_hex_u32(number) && is_colour(pixel, hex_value(digits_of(number))),
            Err(SettingError::BadColor(_)) => !is_hex_u32(number),
            _ => false,
        }
    } else {
        result matches Err(SettingError::MissingColorPrefix)
    }
}

/// Whether `result` is what reading `text` as a position gives. A position
/// is written as two decimal numbers of 32 bits with the first comma of the
/// text between them, and nothing else.
pub open spec fn reads_as_position(text: Seq<char>, result: Result<(u32, u32), SettingError>) -> bool {
    let comma = first_index(text, ',');
    if comma < text.len() {
        let x = text.subrange(0, comma);
        let y = text.subrange(comma + 1, text.len() as int);
        if !is_decimal_u32(x) {
            result matches Err(SettingError::BadPositionX(_))
        } else if !is_decimal_u32(y) {
            result matches Err(SettingError::BadPositionY(_))
        } else {
            result matches Ok(position) && position.0 == digits_value(digits_of(x)) && position.1
                == digits_value(digits_of(y))
        }
    } else {
        result matches Err(SettingError::BadPosition)
    }
}

/// The texts of a sequence of words.
pub open spec fn texts(words: Seq<String>) -> Seq<Seq<char>> {
    Seq::new(words.len(), |i: int| words[i]@)
}

/// Whether `ch` is white space: whether it has the Unicode property
/// `White_Space`. These are the tabulator and the four line controls after
/// it, the space, the next-line control, the no-break space, the Ogham space
/// mark, the eleven spaces from the en quad to the hair space, the line and
/// the paragraph separator, the narrow no-break space, the medium
/// mathematical space and the ideographic space.
pub open spec fn is_white_space(ch: char) -> bool {
    let code = ch as u32;
    ||| 0x09 <= code <= 0x0d
    ||| code == 0x20
    ||| code == 0x85
    ||| code == 0xa0
    ||| code == 0x1680
    ||| 0x2000 <= code <= 0x200a
    ||| code == 0x2028
    ||| code == 0x2029
    ||| code == 0x202f
    ||| code == 0x205f
    ||| code == 0x3000
}

/// For each character of `text`, whether it is white space.
pub open spec fn blanks(text: Seq<char>) -> Seq<bool> {
    Seq::new(text.len(), |i: int| is_white_space(text[i]))
}

/// The index of the first blank at or after `from`, or the length of the
/// text if there is none: where a word ends that reaches `from`.
pub open spec fn word_end(blank: Seq<bool>, from: int) -> int
    decreases blank.len() - from,
{
    if from < 0 || from >= blank.len() || blank[from] {
        from
    } else {
        word_end(blank, from + 1)
    }
}

/// The words of `text` from `from` on: the longest runs of characters that
/// are not blank, in order. `blank` says of each character whether it is.
/// A word that begins at `from` ends at the next blank, and the words after
/// it are looked for from there.
pub open spec fn words_from(text: Seq<char>, blank: Seq<bool>, from: int) -> Seq<Seq<char>>
    decreases blank.len() - from,
{
    if from < 0 || from >= blank.len() {
        Seq::empty()
    } else if blank[from] {
        words_from(text, blank, from + 1)
    } else {
        let end = word_end(blank, from + 1);
        seq![text.subrange(from, end)] + words_from(
            text,
            blank,
            if from < end <= blank.len() {
                end
            } else {
                from + 1
            },
        )
    }
}

/// A line without its comment: what stands before the first `#`.
pub open spec fn uncommented(line: Seq<char>) -> Seq<char> {
    line.take(first_index(line, '#'))
}

/// Whether `result` is what reading a line of a configuration gives. A line
/// is read without its comment, as words between white space. A line
/// without a word gives nothing; otherwise the first word is the keyword and
/// the other words are its arguments.
pub open spec fn reads_as_line(line: Seq<char>, result: Result<Option<Setting>, SettingError>) -> bool {
    let body = uncommented(line);
    let words = words_from(body, blanks(body), 0);
    if words.len() == 0 {
        result matches Ok(None)
    } else {
        match result {
            Ok(Some(setting)) => reads_as_setting(words[0], words.skip(1), Ok(setting)),
            Ok(None) => false,
            Err(e) => reads_as_setting(words[0], words.skip(1), Err(e)),
        }
    }
}

/// The line of `text` that begins at `from`: what stands before the next
/// line feed.
pub open spec fn line_at(text: Seq<char>, from: int) -> Seq<char> {
    text.subrange(from, next_index(text, '\n', from))
}

/// Whether `result` is what reading the lines of `text` from `from` on
/// gives. The lines are read in order, each as [`reads_as_line`] says. If
/// every line can be read, the result holds the settings of the lines that
/// give one, in order. If not, it holds the error of the first line that
/// cannot be read, and with it the settings of the lines before that one.
pub open spec fn reads_as_config(
    text: Seq<char>,
    from: int,
    result: Result<Seq<Setting>, (Seq<Setting>, SettingError)>,
) -> bool
    decreases text.len() + 1 - from,
{
    if from < 0 || from >= text.len() {
        result matches Ok(settings) && settings.len() == 0
    } else {
        let line = line_at(text, from);
        let end = next_index(text, '\n', from);
        let next = if from <= end <= text.len() {
            end + 1
        } else {
            from + 1
        };
        match result {
            Ok(settings) => {
                ||| reads_as_line(line, Ok(None)) && reads_as_config(text, next, Ok(settings))
                ||| settings.len() > 0 && reads_as_line(line, Ok(Some(settings[0])))
                    && reads_as_config(text, next, Ok(settings.skip(1)))
            },
            Err((read, e)) => {
                ||| read.len() == 0 && reads_as_line(line, Err(e))
                ||| reads_as_line(line, Ok(None)) && reads_as_config(text, next, Err((read, e)))
                ||| read.len() > 0 && reads_as_line(line, Ok(Some(read[0]))) && reads_as_config(
                    text,
                    next,
                    Err((read.skip(1), e)),
                )
            },
        }
    }
}

/// Whether `result` is what a keyword with its arguments gives. Every
/// keyword needs one argument at least. `elements` takes all of them; the
/// others take the first: `font_name`, `font_path` and `mpd_addr` as it
/// stands, `foreground` and `background` as a colour, `position` as a
/// position. Any other keyword is an error that carries the keyword.
pub open spec fn reads_as_setting(
    keyword: Seq<char>,
    arguments: Seq<Seq<char>>,
    result: Result<Setting, SettingError>,
) -> bool {
    if arguments.len() == 0 {
        result matches Err(SettingError::MissingArgument)
    } else if keyword == "elements"@ {
        result matches Ok(Setting::Elements(words)) && words@.len() == arguments.len() && forall|
            i: int,
        |
            0 <= i < arguments.len() ==> (#[trigger] words@[i])@ == arguments[i]
    } else if keyword == "font_name"@ {
        result matches Ok(Setting::FontName(name)) && name@ == arguments[0]
    } else if keyword == "font_path"@ {
        result matches Ok(Setting::FontPath(path)) && path@ == arguments[0]
    } else if keyword == "foreground"@ {
        match result {
            Ok(Setting::Foreground(pixel)) => reads_as_colour(arguments[0], Ok(pixel)),
            Ok(_) => false,
            Err(e) => reads_as_colour(arguments[0], Err(e)),
        }
    } else if keyword == "background"@ {
        match result {
            Ok(Setting::Background(pixel)) => reads_as_colour(arguments[0], Ok(pixel)),
            Ok(_) => false,
            Err(e) => reads_as_colour(arguments[0], Err(e)),
        }
    } else if keyword == "position"@ {
        match result {
            Ok(Setting::Position(x, y)) => reads_as_position(arguments[0], Ok((x, y))),
            Ok(_) => false,
            Err(e) => reads_as_position(arguments[0], Err(e)),
        }
    } else if keyword == "mpd_addr"@ {
        result matches Ok(Setting::MpdAddr(address)) && address@ == arguments[0]
    } else {
        result matches Err(SettingError::UnknownKeyword(word)) && word@ == keyword
    }
}

/// Calls `u32::from_str_radix` with radix 16, which accepts one hexadecimal
/// digit at least, in either case, after at most one plus sign, provided
/// that the number fits, and gives the number that the digits stand for.
#[verifier::external_body]
fn parse_hex_u32(text: &str) -> (parsed: Result<u32, std::num::ParseIntError>)
    ensures
        parsed is Ok <==> is_hex_u32(text@),
        parsed matches Ok(value) ==> value == hex_value(digits_of(text@)),
{
    u32::from_str_radix(text, 16)
}

/// Calls `str::parse` for `u32`, which accepts one decimal digit at least
/// after at most one plus sign, provided that the number fits, and gives
/// the number that the digits stand for.
#[verifier::external_body]
fn parse_u32(text: &str) -> (parsed: Result<u32, std::num::ParseIntError>)
    ensures
        parsed is Ok <==> is_decimal_u32(text@),
        parsed matches Ok(value) ==> value == digits_value(digits_of(text@)),
{
    text.parse::<u32>()
}

/// Calls `char::is_whitespace`, which says whether a character has the
/// Unicode property `White_Space`.
#[verifier::external_body]
fn char_is_whitespace(ch: char) -> (blank: bool)
    ensures
        blank == is_white_space(ch),
{
    ch.is_whitespace()
}

/// The words of `text`, where `blank` says of each character whether it
/// separates words.
pub fn split_words(text: &str, blank: &Vec<bool>) -> (words: Vec<String>)
    requires
        blank@.len() == text@.len(),
    ensures
        texts(words@) == words_from(text@, blank@, 0),
{
    let len = blank.len();
    let mut words: Vec<String> = Vec::new();
    let mut from: usize = 0;
    while from < len
        invariant
            len == blank@.len(),
            blank@.len() == text@.len(),
            from <= len,
            texts(words@) + words_from(text@, blank@, from as int) =~= words_from(
                text@,
                blank@,
                0,
            ),
        decreases len - from,
    {
        if blank[from] {
            from += 1;
        } else {
            let mut end: usize = from + 1;
            while end < len && !blank[end]
                invariant
                    len == blank@.len(),
                    from < end <= len,
                    word_end(blank@, from + 1) == word_end(blank@, end as int),
                decreases len - end,
            {
                end += 1;
            }
            let ghost before = words@;
            let word = text.substring_char(from, end).to_owned();
            words.push(word);
            proof {
                assert(word_end(blank@, from + 1) == end);
                assert(texts(words@) =~= texts(before) + seq![text@.subrange(
                    from as int,
                    end as int,
                )]);
            }
            from = end;
        }
    }
    assert(words_from(text@, blank@, from as int) =~= Seq::<Seq<char>>::empty());
    words
}

/// Reads a line of a configuration: nothing, if the line holds no word
/// before its comment, or else the setting that its words give.
pub fn parse_line(line: &str) -> (parsed: Result<Option<Setting>, SettingError>)
    ensures
        reads_as_line(line@, parsed),
{
    let chars = chars_of(line);
    let cut = find_char(&chars, '#');
    let body = line.substring_char(0, cut);
    let mut blank: Vec<bool> = Vec::new();
    let mut n: usize = 0;
    while n < cut
        invariant
            n <= cut <= chars@.len(),
            blank@.len() == n,
            forall|i: int| 0 <= i < n ==> #[trigger] blank@[i] == is_white_space(chars@[i]),
        decreases cut - n,
    {
        blank.push(char_is_whitespace(chars[n]));
        n += 1;
    }
    assert(blank@ =~= blanks(body@));
    let mut words = split_words(body, &blank);
    if words.len() == 0 {
        return Ok(None);
    }
    let ghost all = texts(words@);
    let keyword = words.remove(0);
    assert(texts(words@) =~= all.skip(1));
    match parse_setting(keyword.as_str(), &words) {
        Ok(setting) => Ok(Some(setting)),
        Err(e) => Err(e),
    }
}

/// Reads a configuration: the settings of its lines, in order, or the error
/// of the first line that cannot be read, with the settings of the lines
/// before it.
pub fn parse_config(text: &str) -> (parsed: Result<Vec<Setting>, (Vec<Setting>, SettingError)>)
    ensures
        match parsed {
            Ok(settings) => reads_as_config(text@, 0, Ok(settings@)),
            Err((read, e)) => reads_as_config(text@, 0, Err((read@, e))),
        },
{
    let chars = chars_of(text);
    let len = chars.len();
    let mut settings: Vec<Setting> = Vec::new();
    let mut from: usize = 0;
    while from < len
        invariant
            chars@ == text@,
            len == chars@.len(),
            from <= len,
            forall|rest: Seq<Setting>| #[trigger]
                reads_as_config(text@, from as int, Ok(rest)) ==> reads_as_config(
                    text@,
                    0,
                    Ok(settings@ + rest),
                ),
            forall|rest: Seq<Setting>, e: SettingError| #[trigger]
                reads_as_config(text@, from as int, Err((rest, e))) ==> reads_as_config(
                    text@,
                    0,
                    Err((settings@ + rest, e)),
                ),
        decreases len - from,
    {
        let end = find_char_from(&chars, '\n', from);
        let after = if end < len {
            end + 1
        } else {
            len
        };
        let line = text.substring_char(from, end);
        let ghost before = settings@;
        let ghost start = from as int;
        let read = match parse_line(line) {
            Ok(read) => read,
            Err(e) => {
                proof {
                    let none = Seq::<Setting>::empty();
                    assert(reads_as_config(text@, start, Err((none, e))));
                    assert(settings@ + none =~= settings@);
                }
                return Err((settings, e));
            },
        };
        match read {
            Some(setting) => {
                settings.push(setting);
                proof {
                    assert forall|rest: Seq<Setting>| #[trigger]
                        reads_as_config(text@, after as int, Ok(rest)) implies reads_as_config(
                        text@,
                        0,
                        Ok(settings@ + rest),
                    ) by {
                        assert(reads_as_config(text@, end + 1, Ok(rest)));
                        let joined = seq![setting] + rest;
                        assert(joined.skip(1) =~= rest);
                        assert(joined[0] == setting);
                        assert(reads_as_config(text@, start, Ok(joined)));
                        assert(before + joined =~= settings@ + rest);
                    }
                    assert forall|rest: Seq<Setting>, e: SettingError| #[trigger]
                        reads_as_config(
                            text@,
                            after as int,
                            Err((rest, e)),
                        ) implies reads_as_config(text@, 0, Err((settings@ + rest, e))) by {
                        assert(reads_as_config(text@, end + 1, Err((rest, e))));
                        let joined = seq![setting] + rest;
                        assert(joined.skip(1) =~= rest);
                        assert(joined[0] == setting);
                        assert(reads_as_config(text@, start, Err((joined, e))));
                        assert(before + joined =~= settings@ + rest);
                    }
                }
            },
            None => {
                proof {
                    assert forall|rest: Seq<Setting>| #[trigger]
                        reads_as_config(text@, after as int, Ok(rest)) implies reads_as_config(
                        text@,
                        0,
                        Ok(settings@ + rest),
                    ) by {
                        assert(reads_as_config(text@, end + 1, Ok(rest)));
                        assert(reads_as_config(text@, start, Ok(rest)));
                    }
                    assert forall|rest: Seq<Setting>, e: SettingError| #[trigger]
                        reads_as_config(
                            text@,
                            after as int,
                            Err((rest, e)),
                        ) implies reads_as_config(text@, 0, Err((settings@ + rest, e))) by {
                        assert(reads_as_config(text@, end + 1, Err((rest, e))));
                        assert(reads_as_config(text@, start, Err((rest, e))));
                    }
                }
            },
        }
        from = after;
    }
    proof {
        let none = Seq::<Setting>::empty();
        assert(reads_as_config(text@, from as int, Ok(none)));
        assert(settings@ + none =~= settings@);
    }
    Ok(settings)
}

/// Reads a colour.
pub fn parse_colour(text: &str) -> (parsed: Result<Pixel, SettingError>)
    ensures
        reads_as_colour(text@, parsed),
{
    let chars = chars_of(text);
    if chars.len() < 2 || chars[0] != '0' || chars[1] != 'x' {
        return Err(SettingError::MissingColorPrefix);
    }
    match parse_hex_u32(text.substring_char(2, chars.len())) {
        Ok(value) => {
            let pixel: Pixel = [
                (value / 0x100_0000) as u8,
                ((value / 0x1_0000) % 0x100) as u8,
                ((value / 0x100) % 0x100) as u8,
                (value % 0x100) as u8,
            ];
            Ok(pixel)
        },
        Err(e) => Err(SettingError::BadColor(e)),
    }
}

/// Reads a position.
pub fn parse_position(text: &str) -> (parsed: Result<(u32, u32), SettingError>)
    ensures
        reads_as_position(text@, parsed),
{
    let chars = chars_of(text);
    let comma = find_char(&chars, ',');
    if comma >= chars.len() {
        return Err(SettingError::BadPosition);
    }
    let x = match parse_u32(text.substring_char(0, comma)) {
        Ok(x) => x,
        Err(e) => {
            return Err(SettingError::BadPositionX(e));
        },
    };
    let y = match parse_u32(text.substring_char(comma + 1, chars.len())) {
        Ok(y) => y,
        Err(e) => {
            return Err(SettingError::BadPositionY(e));
        },
    };
    Ok((x, y))
}

/// Reads the setting that a keyword and its arguments give.
pub fn parse_setting(keyword: &str, arguments: &Vec<String>) -> (parsed: Result<
    Setting,
    SettingError,
>)
    ensures
        reads_as_setting(keyword@, texts(arguments@), parsed),
{
    if arguments.len() == 0 {
        return Err(SettingError::MissingArgument);
    }
    let first = arguments[0].as_str();
    if same_text(keyword, "elements") {
        let mut words: Vec<String> = Vec::new();
        let mut n: usize = 0;
        while n < arguments.len()
            invariant
                n <= arguments@.len(),
                words@.len() == n,
                forall|i: int| 0 <= i < n ==> (#[trigger] words@[i])@ == arguments@[i]@,
                texts(arguments@).len() == arguments@.len(),
            decreases arguments.len() - n,
        {
            words.push(arguments[n].clone());
            n += 1;
        }
        Ok(Setting::Elements(words))
    } else if same_text(keyword, "font_name") {
        Ok(Setting::FontName(first.to_owned()))
    } else if same_text(keyword, "font_path") {
        Ok(Setting::FontPath(first.to_owned()))
    } else if same_text(keyword, "foreground") {
        match parse_colour(first) {
            Ok(pixel) => Ok(Setting::Foreground(pixel)),
            Err(e) => Err(e),
        }
    } else if same_text(keyword, "background") {
        match parse_colour(first) {
            Ok(pixel) => Ok(Setting::Background(pixel)),
            Err(e) => Err(e),
        }
    } else if same_text(keyword, "position") {
        match parse_position(first) {
            Ok(position) => Ok(Setting::Position(position.0, position.1)),
            Err(e) => Err(e),
        }
    } else if same_text(keyword, "mpd_addr") {
        Ok(Setting::MpdAddr(first.to_owned()))
    } else {
        Err(SettingError::UnknownKeyword(keyword.to_owned()))
    }
}

impl SettingError {
    /// The error in words. An unknown keyword is quoted; for a bad number
    /// the words end with those of the integer parser.
    pub fn message(&self) -> (text: String)
        ensures
            self matches SettingError::MissingArgument ==> text@
                == "expected argument after keyword"@,
            self matches SettingError::MissingColorPrefix ==> text@
                == "color values must be prefixed with '0x'"@,
            self matches SettingError::BadPosition ==> text@
                == "position must be formatted as 'x,y' (no space!)where x and y are positive integers"@,
            self matches SettingError::UnknownKeyword(word) ==> text@ == "unknown keyword '"@
                + word@ + "'"@,
            self matches SettingError::BadPositionX(_)
                ==> "error while parsing x value in position: "@.is_prefix_of(text@),
            self matches SettingError::BadPositionY(_)
                ==> "error while parsing y value in position: "@.is_prefix_of(text@),
    {
        match self {
            SettingError::MissingArgument => String::from_str("expected argument after keyword"),
            SettingError::MissingColorPrefix => String::from_str(
                "color values must be prefixed with '0x'",
            ),
            SettingError::BadColor(e) => integer_error_text(e),
            SettingError::BadPosition => String::from_str(
                "position must be formatted as 'x,y' (no space!)where x and y are positive integers",
            ),
            SettingError::BadPositionX(e) => {
                let mut text = String::from_str("error while parsing x value in position: ");
                let ghost lead = text@;
                text.append(integer_error_text(e).as_str());
                assert(text@.subrange(0, lead.len() as int) =~= lead);
                text
            },
            SettingError::BadPositionY(e) => {
                let mut text = String::from_str("error while parsing y value in position: ");
                let ghost lead = text@;
                text.append(integer_error_text(e).as_str());
                assert(text@.subrange(0, lead.len() as int) =~= lead);
                text
            },
            SettingError::UnknownKeyword(word) => {
                let mut text = String::from_str("unknown keyword '");
                text.append(word.as_str());
                text.append("'");
                text
            },
        }
    }
}

} // verus!
