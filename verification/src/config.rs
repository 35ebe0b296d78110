//! Reading a configuration from the texts that a user gives.
//!
//! The field positions, the column macros and the escape modes each come as
//! one text, a list with commas between its entries.

use crate::escape::EncodingOption;
use crate::options::{Config, CutOptions};
use crate::text::{split, split_spec, texts, to_chars};
use crate::unicode::{lowercase, to_lowercase};
use vstd::prelude::*;

verus! {

/// Why a configuration was turned down.
#[derive(Debug, PartialEq, Eq)]
pub enum ConfigError {
    /// The input delimiter is empty.
    EmptyDelimiter,
    /// An entry of the field list is not a position; it holds the entry.
    InvalidField(String),
    /// An entry of the escape list names no mode; it holds the entry.
    UnknownEncoding(String),
}

/// What is wrong with a configuration, as mathematical data.
pub enum ConfigFault {
    EmptyDelimiter,
    InvalidField(Seq<char>),
    UnknownEncoding(Seq<char>),
}

impl View for ConfigError {
    type V = ConfigFault;

    open spec fn view(&self) -> ConfigFault {
        match self {
            ConfigError::EmptyDelimiter => ConfigFault::EmptyDelimiter,
            ConfigError::InvalidField(entry) => ConfigFault::InvalidField(entry@),
            ConfigError::UnknownEncoding(entry) => ConfigFault::UnknownEncoding(entry@),
        }
    }
}

/// What a fault is reported as.
pub open spec fn message_spec(fault: ConfigFault) -> Seq<char> {
    match fault {
        ConfigFault::EmptyDelimiter => "the delimiter must not be empty"@,
        ConfigFault::InvalidField(entry) => "unable to read field id: "@ + entry,
        ConfigFault::UnknownEncoding(entry) => "unknown encoding specified: "@ + entry,
    }
}

impl ConfigError {
    /// The fault in words.
    pub fn message(&self) -> (text: String)
        ensures
            text@ == message_spec(self@),
    {
        match self {
            ConfigError::EmptyDelimiter => String::from_str("the delimiter must not be empty"),
            ConfigError::InvalidField(entry) => String::from_str("unable to read field id: ").concat(
                entry.as_str(),
            ),
            ConfigError::UnknownEncoding(entry) => String::from_str(
                "unknown encoding specified: ",
            ).concat(entry.as_str()),
        }
    }
}

/// A decimal digit.
pub open spec fn is_digit(c: char) -> bool {
    '0' <= c && c <= '9'
}

/// The number that a decimal digit stands for.
pub open spec fn digit_value(c: char) -> int {
    c as int - '0' as int
}

/// The number that a sequence of decimal digits stands for.
pub open spec fn decimal_value(digits: Seq<char>) -> int
    decreases digits.len(),
{
    if digits.len() == 0 {
        0
    } else {
        decimal_value(digits.drop_last()) * 10 + digit_value(digits.last())
    }
}

/// An entry of the field list without the plus sign that may lead it.
pub open spec fn unsigned_part(entry: Seq<char>) -> Seq<char> {
    if entry.len() > 0 && entry[0] == '+' {
        entry.drop_first()
    } else {
        entry
    }
}

/// The field position that an entry of the field list stands for: one or
/// more decimal digits, after at most one plus sign, whose number is at
/// least one and fits the machine. Anything else is no position.
pub open spec fn position_of(entry: Seq<char>) -> Option<usize> {
    let digits = unsigned_part(entry);
    if digits.len() > 0 && (forall|i: int| 0 <= i < digits.len() ==> is_digit(#[trigger] digits[i]))
        && 1 <= decimal_value(digits) <= usize::MAX {
        Some(decimal_value(digits) as usize)
    } else {
        None
    }
}

/// The field positions that the entries stand for, or the first entry that
/// stands for none.
pub open spec fn positions_of(entries: Seq<Seq<char>>) -> Result<Seq<usize>, Seq<char>>
    decreases entries.len(),
{
    if entries.len() == 0 {
        Ok(Seq::empty())
    } else {
        match positions_of(entries.drop_last()) {
            Err(entry) => Err(entry),
            Ok(before) => match position_of(entries.last()) {
                Some(position) => Ok(before.push(position)),
                None => Err(entries.last()),
            },
        }
    }
}

/// The escape mode that a lowercase name stands for. The empty name stands
/// for LaTeX.
pub open spec fn mode_named(name: Seq<char>) -> Option<EncodingOption> {
    if name == "none"@ {
        Some(EncodingOption::Plain)
    } else if name == ""@ {
        Some(EncodingOption::LaTeX)
    } else if name == "listing"@ {
        Some(EncodingOption::Listing)
    } else if name == "latex"@ {
        Some(EncodingOption::LaTeX)
    } else {
        None
    }
}

/// The escape modes that the entries stand for, whatever their case, or the
/// first entry that stands for none.
pub open spec fn modes_of(entries: Seq<Seq<char>>) -> Result<Seq<EncodingOption>, Seq<char>>
    decreases entries.len(),
{
    if entries.len() == 0 {
        Ok(Seq::empty())
    } else {
        match modes_of(entries.drop_last()) {
            Err(entry) => Err(entry),
            Ok(before) => match mode_named(lowercase(entries.last())) {
                Some(mode) => Ok(before.push(mode)),
                None => Err(entries.last()),
            },
        }
    }
}

/// The configuration that the given texts stand for, or what is wrong with
/// them. The delimiter is looked at first, then the field list, then the
/// escape list. Output values are joined with `" & "`.
pub open spec fn configure_spec(
    input_delimiter: Seq<char>,
    fields: Seq<char>,
    only_delimited: bool,
    wrap_lines: Seq<char>,
    wrap_fields: Seq<char>,
    escape_fields: Seq<char>,
) -> Result<Config, ConfigFault> {
    if input_delimiter.len() == 0 {
        Err(ConfigFault::EmptyDelimiter)
    } else {
        match positions_of(split_spec(fields, ","@)) {
            Err(entry) => Err(ConfigFault::InvalidField(entry)),
            Ok(positions) => match modes_of(split_spec(escape_fields, ","@)) {
                Err(entry) => Err(ConfigFault::UnknownEncoding(entry)),
                Ok(modes) => Ok(
                    Config {
                        input_delimiter,
                        output_delimiter: " & "@,
                        only_delimited,
                        fields: positions,
                        wrap_lines,
                        wrap_fields: split_spec(wrap_fields, ","@),
                        escape_fields: modes,
                    },
                ),
            },
        }
    }
}

/// Every position read from a list of entries is at least one, and there is
/// one for each entry.
pub proof fn lemma_positions_are_positive(entries: Seq<Seq<char>>)
    requires
        positions_of(entries) is Ok,
    ensures
        positions_of(entries)->Ok_0.len() == entries.len(),
        forall|i: int|
            0 <= i < entries.len() ==> (#[trigger] positions_of(entries)->Ok_0[i]) >= 1,
    decreases entries.len(),
{
    if entries.len() > 0 {
        lemma_positions_are_positive(entries.drop_last());
    }
}

/// A configuration that is accepted is one that lines can be formatted
/// under.
pub proof fn lemma_configured_is_valid(
    input_delimiter: Seq<char>,
    fields: Seq<char>,
    only_delimited: bool,
    wrap_lines: Seq<char>,
    wrap_fields: Seq<char>,
    escape_fields: Seq<char>,
)
    requires
        configure_spec(
            input_delimiter,
            fields,
            only_delimited,
            wrap_lines,
            wrap_fields,
            escape_fields,
        ) is Ok,
    ensures
        configure_spec(
            input_delimiter,
            fields,
            only_delimited,
            wrap_lines,
            wrap_fields,
            escape_fields,
        )->Ok_0.valid(),
{
    lemma_positions_are_positive(split_spec(fields, ","@));
}

/// A sequence of digits stands for at least as much as any of its prefixes.
proof fn lemma_decimal_value_prefix(digits: Seq<char>, n: int)
    requires
        0 <= n <= digits.len(),
        forall|i: int| 0 <= i < digits.len() ==> is_digit(#[trigger] digits[i]),
    ensures
        0 <= decimal_value(digits.take(n)) <= decimal_value(digits),
    decreases digits.len(),
{
    if n == digits.len() {
        assert(digits.take(n) =~= digits);
        if digits.len() > 0 {
            lemma_decimal_value_prefix(digits.drop_last(), n - 1);
        }
    } else {
        lemma_decimal_value_prefix(digits.drop_last(), n);
        assert(digits.drop_last().take(n) =~= digits.take(n));
    }
}

/// Reads one entry of the field list.
pub fn parse_position(entry: &str) -> (r: Option<usize>)
    ensures
        r == position_of(entry@),
{
    let chars = to_chars(entry);
    let start: usize = if chars.len() > 0 && chars[0] == '+' {
        1
    } else {
        0
    };
    let ghost digits = unsigned_part(entry@);
    if start == chars.len() {
        return None;
    }
    let mut value: usize = 0;
    let mut i: usize = start;
    while i < chars.len()
        invariant
            start <= i <= chars.len(),
            digits == unsigned_part(entry@),
            digits == chars@.skip(start as int),
            forall|k: int| 0 <= k < i - start ==> is_digit(#[trigger] digits[k]),
            value == decimal_value(digits.take(i - start)),
        decreases chars.len() - i,
    {
        let c = chars[i];
        if !(c >= '0' && c <= '9') {
            assert(!is_digit(digits[i - start]));
            return None;
        }
        let digit: usize = (c as u32 - '0' as u32) as usize;
        proof {
            let next = digits.take(i - start + 1);
            assert(next.drop_last() =~= digits.take(i - start));
            if forall|k: int| 0 <= k < digits.len() ==> is_digit(#[trigger] digits[k]) {
                lemma_decimal_value_prefix(digits, i - start + 1);
            }
        }
        match value.checked_mul(10) {
            None => {
                return None;
            },
            Some(shifted) => match shifted.checked_add(digit) {
                None => {
                    return None;
                },
                Some(next) => {
                    value = next;
                },
            },
        }
        i += 1;
    }
    proof {
        assert(digits.take(digits.len() as int) =~= digits);
    }
    if value == 0 {
        None
    } else {
        Some(value)
    }
}

/// Reads the list of field positions.
pub fn parse_fields(list: &str) -> (r: Result<Vec<usize>, ConfigError>)
    ensures
        match r {
            Ok(fields) => positions_of(split_spec(list@, ","@)) == Ok::<Seq<usize>, Seq<char>>(
                fields@,
            ),
            Err(e) => positions_of(split_spec(list@, ","@)) is Err && e@ == ConfigFault::InvalidField(
                positions_of(split_spec(list@, ","@))->Err_0,
            ),
        },
{
    proof {
        reveal_strlit(",");
    }
    let entries = split(list, ",");
    let mut fields: Vec<usize> = Vec::new();
    let mut i: usize = 0;
    while i < entries.len()
        invariant
            i <= entries.len(),
            texts(entries@) == split_spec(list@, ","@),
            positions_of(texts(entries@).take(i as int)) == Ok::<Seq<usize>, Seq<char>>(fields@),
        decreases entries.len() - i,
    {
        proof {
            let done = texts(entries@).take(i + 1);
            assert(done.drop_last() =~= texts(entries@).take(i as int));
        }
        match parse_position(entries[i].as_str()) {
            Some(position) => {
                fields.push(position);
            },
            None => {
                proof {
                    lemma_positions_fail_later(texts(entries@), i + 1);
                }
                return Err(ConfigError::InvalidField(entries[i].clone()));
            },
        }
        i += 1;
    }
    proof {
        assert(texts(entries@).take(entries@.len() as int) =~= texts(entries@));
    }
    Ok(fields)
}

/// Once a prefix of the entries has failed, the whole list fails on the same
/// entry.
proof fn lemma_positions_fail_later(entries: Seq<Seq<char>>, n: int)
    requires
        0 <= n <= entries.len(),
        positions_of(entries.take(n)) is Err,
    ensures
        positions_of(entries) == positions_of(entries.take(n)),
    decreases entries.len(),
{
    if n == entries.len() {
        assert(entries.take(n) =~= entries);
    } else {
        assert(entries.drop_last().take(n) =~= entries.take(n));
        lemma_positions_fail_later(entries.drop_last(), n);
    }
}

/// Reads the list of column macros. Every text is a list: the empty text is
/// the list of one empty name.
pub fn parse_wrap_fields(list: &str) -> (names: Vec<String>)
    ensures
        texts(names@) == split_spec(list@, ","@),
{
    proof {
        reveal_strlit(",");
    }
    split(list, ",")
}

/// Whether two string slices hold the same text.
fn same_text(a: &str, b: &str) -> (same: bool)
    ensures
        same == (a@ == b@),
{
    let a_chars = to_chars(a);
    let b_chars = to_chars(b);
    if a_chars.len() != b_chars.len() {
        return false;
    }
    let mut i: usize = 0;
    while i < a_chars.len()
        invariant
            a_chars@ == a@,
            b_chars@ == b@,
            a_chars.len() == b_chars.len(),
            i <= a_chars.len(),
            forall|k: int| 0 <= k < i ==> a@[k] == b@[k],
        decreases a_chars.len() - i,
    {
        if a_chars[i] != b_chars[i] {
            return false;
        }
        i += 1;
    }
    assert(a@ =~= b@);
    true
}

/// The escape mode that a lowercase name stands for.
pub fn mode_for_name(name: &str) -> (mode: Option<EncodingOption>)
    ensures
        mode == mode_named(name@),
{
    if same_text(name, "none") {
        Some(EncodingOption::Plain)
    } else if same_text(name, "") {
        Some(EncodingOption::LaTeX)
    } else if same_text(name, "listing") {
        Some(EncodingOption::Listing)
    } else if same_text(name, "latex") {
        Some(EncodingOption::LaTeX)
    } else {
        None
    }
}

/// Reads one entry of the escape list, whatever its case.
pub fn parse_mode(entry: &str) -> (mode: Option<EncodingOption>)
    ensures
        mode == mode_named(lowercase(entry@)),
{
    let lowered = to_lowercase(entry);
    mode_for_name(lowered.as_str())
}

/// Once a prefix of the entries has failed, the whole list fails on the same
/// entry.
proof fn lemma_modes_fail_later(entries: Seq<Seq<char>>, n: int)
    requires
        0 <= n <= entries.len(),
        modes_of(entries.take(n)) is Err,
    ensures
        modes_of(entries) == modes_of(entries.take(n)),
    decreases entries.len(),
{
    if n == entries.len() {
        assert(entries.take(n) =~= entries);
    } else {
        assert(entries.drop_last().take(n) =~= entries.take(n));
        lemma_modes_fail_later(entries.drop_last(), n);
    }
}

/// Reads the list of escape modes.
pub fn parse_escape_fields(list: &str) -> (r: Result<Vec<EncodingOption>, ConfigError>)
    ensures
        match r {
            Ok(modes) => modes_of(split_spec(list@, ","@)) == Ok::<Seq<EncodingOption>, Seq<char>>(
                modes@,
            ),
            Err(e) => modes_of(split_spec(list@, ","@)) is Err && e@ == ConfigFault::UnknownEncoding(
                modes_of(split_spec(list@, ","@))->Err_0,
            ),
        },
{
    proof {
        reveal_strlit(",");
    }
    let entries = split(list, ",");
    let mut modes: Vec<EncodingOption> = Vec::new();
    let mut i: usize = 0;
    while i < entries.len()
        invariant
            i <= entries.len(),
            texts(entries@) == split_spec(list@, ","@),
            modes_of(texts(entries@).take(i as int)) == Ok::<Seq<EncodingOption>, Seq<char>>(modes@),
        decreases entries.len() - i,
    {
        proof {
            let done = texts(entries@).take(i + 1);
            assert(done.drop_last() =~= texts(entries@).take(i as int));
        }
        match parse_mode(entries[i].as_str()) {
            Some(mode) => {
                modes.push(mode);
            },
            None => {
                proof {
                    lemma_modes_fail_later(texts(entries@), i + 1);
                }
                return Err(ConfigError::UnknownEncoding(entries[i].clone()));
            },
        }
        i += 1;
    }
    proof {
        assert(texts(entries@).take(entries@.len() as int) =~= texts(entries@));
    }
    Ok(modes)
}

impl CutOptions {
    /// Builds the configuration of a run from the texts that the user gave,
    /// or says what is wrong with them.
    pub fn configure(
        input_delimiter: String,
        fields: &str,
        only_delimited: bool,
        wrap_lines: String,
        wrap_fields: &str,
        escape_fields: &str,
    ) -> (r: Result<CutOptions, ConfigError>)
        ensures
            match r {
                Ok(options) => configure_spec(
                    input_delimiter@,
                    fields@,
                    only_delimited,
                    wrap_lines@,
                    wrap_fields@,
                    escape_fields@,
                ) == Ok::<Config, ConfigFault>(options@) && options@.valid(),
                Err(e) => configure_spec(
                    input_delimiter@,
                    fields@,
                    only_delimited,
                    wrap_lines@,
                    wrap_fields@,
                    escape_fields@,
                ) == Err::<Config, ConfigFault>(e@),
            },
    {
        if input_delimiter.as_str().is_empty() {
            return Err(ConfigError::EmptyDelimiter);
        }
        let positions = match parse_fields(fields) {
            Ok(positions) => positions,
            Err(e) => {
                return Err(e);
            },
        };
        let modes = match parse_escape_fields(escape_fields) {
            Ok(modes) => modes,
            Err(e) => {
                return Err(e);
            },
        };
        let mut options = CutOptions::new();
        options.input_delimiter = input_delimiter;
        options.only_delimited = only_delimited;
        options.fields = positions;
        options.wrap_lines = wrap_lines;
        options.wrap_fields = parse_wrap_fields(wrap_fields);
        options.escape_fields = modes;
        proof {
            lemma_configured_is_valid(
                input_delimiter@,
                fields@,
                only_delimited,
                wrap_lines@,
                wrap_fields@,
                escape_fields@,
            );
        }
        Ok(options)
    }
}

} // verus!
