//! The configuration of a run, and the formatting of lines under it.

use crate::converter::{mode_at, transform_spec, wrap_name_at, Converter};
use crate::escape::EncodingOption;
use crate::text::{contains, contains_spec, join, join_spec, split, split_spec, texts};
use crate::wrap::{wrap, wrap_spec};
use vstd::prelude::*;

verus! {

/// What a run is configured with.
pub struct CutOptions {
    /// The text that separates the fields of an input line.
    pub input_delimiter: String,
    /// The text put between the values of an output row.
    pub output_delimiter: String,
    /// Whether lines without the input delimiter are dropped rather than
    /// passed through.
    pub only_delimited: bool,
    /// For each output column, the one-based position of the input field
    /// that it shows.
    pub fields: Vec<usize>,
    /// The macro that wraps a whole row; empty for none.
    pub wrap_lines: String,
    /// For each output column, the macro that wraps its value; empty for
    /// none.
    pub wrap_fields: Vec<String>,
    /// For each output column, how its value is escaped.
    pub escape_fields: Vec<EncodingOption>,
}

/// A configuration as plain mathematical data.
pub struct Config {
    pub input_delimiter: Seq<char>,
    pub output_delimiter: Seq<char>,
    pub only_delimited: bool,
    pub fields: Seq<usize>,
    pub wrap_lines: Seq<char>,
    pub wrap_fields: Seq<Seq<char>>,
    pub escape_fields: Seq<EncodingOption>,
}

impl View for CutOptions {
    type V = Config;

    open spec fn view(&self) -> Config {
        Config {
            input_delimiter: self.input_delimiter@,
            output_delimiter: self.output_delimiter@,
            only_delimited: self.only_delimited,
            fields: self.fields@,
            wrap_lines: self.wrap_lines@,
            wrap_fields: texts(self.wrap_fields@),
            escape_fields: self.escape_fields@,
        }
    }
}

impl Config {
    /// A configuration that lines can be formatted under: the input
    /// delimiter is not empty, and every field position is at least one.
    pub open spec fn valid(self) -> bool {
        &&& self.input_delimiter.len() > 0
        &&& forall|column: int| 0 <= column < self.fields.len() ==> #[trigger] self.fields[column] >= 1
    }
}

/// The input field at a one-based position, or the empty text where the
/// line has no field there.
pub open spec fn field_or_empty(input: Seq<Seq<char>>, position: int) -> Seq<char> {
    if 1 <= position <= input.len() {
        input[position - 1]
    } else {
        Seq::empty()
    }
}

/// The value of one output column: its input field, escaped and wrapped as
/// the column is configured.
pub open spec fn output_value(config: Config, input: Seq<Seq<char>>, column: int) -> Seq<char> {
    transform_spec(
        field_or_empty(input, config.fields[column] as int),
        mode_at(config.escape_fields, column),
        wrap_name_at(config.wrap_fields, column),
    )
}

/// The values of all output columns, in output order.
pub open spec fn output_values(config: Config, input: Seq<Seq<char>>) -> Seq<Seq<char>> {
    Seq::new(config.fields.len(), |column: int| output_value(config, input, column))
}

/// The end of a row: with no row macro, two backslashes behind the joined
/// values; with one, the joined values wrapped in it and nothing behind.
pub open spec fn finish_row_spec(joined: Seq<char>, wrap_lines: Seq<char>) -> Seq<char> {
    if wrap_lines.len() == 0 {
        joined + seq!['\\', '\\']
    } else {
        wrap_spec(joined, wrap_lines)
    }
}

/// The row made from a line that holds the input delimiter.
pub open spec fn format_row(config: Config, line: Seq<char>) -> Seq<char> {
    finish_row_spec(
        join_spec(
            output_values(config, split_spec(line, config.input_delimiter)),
            config.output_delimiter,
        ),
        config.wrap_lines,
    )
}

/// What is written for a line, if anything. A line without the input
/// delimiter is written as it is, or not at all where only delimited lines
/// are wanted. Any other line is written as a row.
pub open spec fn format_line(config: Config, line: Seq<char>) -> Option<Seq<char>> {
    if contains_spec(line, config.input_delimiter) {
        Some(format_row(config, line))
    } else if config.only_delimited {
        None
    } else {
        Some(line)
    }
}

/// What is written for a sequence of lines: what is written for each, in
/// the order of the lines.
pub open spec fn format_lines(config: Config, lines: Seq<Seq<char>>) -> Seq<Seq<char>>
    decreases lines.len(),
{
    if lines.len() == 0 {
        Seq::empty()
    } else {
        let before = format_lines(config, lines.drop_last());
        match format_line(config, lines.last()) {
            Some(row) => before.push(row),
            None => before,
        }
    }
}

/// A column that asks for a field beyond the last field of the line shows
/// the empty text, escaped and wrapped as the column is configured. The line
/// is still written as a row.
pub proof fn lemma_field_beyond_line(config: Config, line: Seq<char>, column: int)
    requires
        config.valid(),
        contains_spec(line, config.input_delimiter),
        0 <= column < config.fields.len(),
        config.fields[column] > split_spec(line, config.input_delimiter).len(),
    ensures
        format_line(config, line) == Some(format_row(config, line)),
        output_values(config, split_spec(line, config.input_delimiter))[column] == transform_spec(
            Seq::empty(),
            mode_at(config.escape_fields, column),
            wrap_name_at(config.wrap_fields, column),
        ),
{
}

/// What is written for a line depends on the configuration and on the text
/// of the line, and on nothing else: two results of `cut_line`, for the same
/// line under the same configuration, hold the same text.
pub proof fn lemma_cut_line_deterministic(
    first: CutOptions,
    second: CutOptions,
    line: Seq<char>,
    first_out: Option<String>,
    second_out: Option<String>,
)
    requires
        first@ == second@,
        text_of(first_out) == format_line(first@, line),
        text_of(second_out) == format_line(second@, line),
    ensures
        text_of(first_out) == text_of(second_out),
{
}

/// What is written for a sequence of lines depends on the configuration and
/// on the texts of the lines, and on nothing else: two results of `cut`, for
/// the same lines under the same configuration, hold the same texts.
pub proof fn lemma_cut_deterministic(
    first: CutOptions,
    second: CutOptions,
    lines: Seq<Seq<char>>,
    first_out: Vec<String>,
    second_out: Vec<String>,
)
    requires
        first@ == second@,
        texts(first_out@) == format_lines(first@, lines),
        texts(second_out@) == format_lines(second@, lines),
    ensures
        texts(first_out@) == texts(second_out@),
{
}

/// Lines are formatted one by one and written in their order: what is
/// written for two sequences of lines put together is what is written for
/// the first, followed by what is written for the second.
pub proof fn lemma_format_lines_concat(config: Config, a: Seq<Seq<char>>, b: Seq<Seq<char>>)
    ensures
        format_lines(config, a + b) == format_lines(config, a) + format_lines(config, b),
    decreases b.len(),
{
    if b.len() > 0 {
        lemma_format_lines_concat(config, a, b.drop_last());
        assert((a + b).drop_last() =~= a + b.drop_last());
    }
}

/// The text of an optional string.
pub open spec fn text_of(s: Option<String>) -> Option<Seq<char>> {
    match s {
        Some(s) => Some(s@),
        None => None,
    }
}

/// Ends a row of joined values.
pub fn finish_row(joined: String, wrap_lines: &str) -> (row: String)
    ensures
        row@ == finish_row_spec(joined@, wrap_lines@),
{
    if wrap_lines.is_empty() {
        proof {
            reveal_strlit("\\\\");
        }
        let mut row = joined;
        row.append("\\\\");
        row
    } else {
        wrap(joined, wrap_lines)
    }
}

impl CutOptions {
    /// The configuration to start from: `" & "` between output values,
    /// nothing else set.
    pub fn new() -> (options: CutOptions)
        ensures
            options@ == (Config {
                input_delimiter: Seq::empty(),
                output_delimiter: " & "@,
                only_delimited: false,
                fields: Seq::empty(),
                wrap_lines: Seq::empty(),
                wrap_fields: Seq::empty(),
                escape_fields: Seq::empty(),
            }),
    {
        let options = CutOptions {
            input_delimiter: String::new(),
            output_delimiter: String::from_str(" & "),
            only_delimited: false,
            fields: Vec::new(),
            wrap_lines: String::new(),
            wrap_fields: Vec::new(),
            escape_fields: Vec::new(),
        };
        proof {
            assert(texts(options.wrap_fields@) =~= Seq::empty());
        }
        options
    }

    /// Whether lines can be formatted under this configuration.
    pub fn is_valid(&self) -> (b: bool)
        ensures
            b == self@.valid(),
    {
        if self.input_delimiter.as_str().is_empty() {
            return false;
        }
        let mut column: usize = 0;
        while column < self.fields.len()
            invariant
                column <= self.fields.len(),
                forall|k: int| 0 <= k < column ==> #[trigger] self.fields@[k] >= 1,
            decreases self.fields.len() - column,
        {
            if self.fields[column] == 0 {
                assert(!(self@.fields[column as int] >= 1));
                return false;
            }
            column += 1;
        }
        true
    }

    /// The table of column rewritings for this configuration.
    pub fn converter(&self) -> (c: Converter)
        ensures
            c.agrees_with(self@.wrap_fields, self@.escape_fields),
            c.columns@.len() == if self@.wrap_fields.len() >= self@.escape_fields.len() {
                self@.wrap_fields.len()
            } else {
                self@.escape_fields.len()
            },
    {
        Converter::new(&self.wrap_fields, &self.escape_fields)
    }

    /// Formats one line. The converter is the one made for this
    /// configuration; it is passed in so that a run builds it once.
    pub fn cut_line(&self, line: &str, converter: &Converter) -> (out: Option<String>)
        requires
            self@.valid(),
            converter.agrees_with(self@.wrap_fields, self@.escape_fields),
        ensures
            text_of(out) == format_line(self@, line@),
            contains_spec(line@, self@.input_delimiter) ==> out is Some,
            !contains_spec(line@, self@.input_delimiter) && !self.only_delimited ==> text_of(out)
                == Some(line@),
            !contains_spec(line@, self@.input_delimiter) && self.only_delimited ==> out is None,
    {
        if !contains(line, self.input_delimiter.as_str()) {
            if self.only_delimited {
                return None;
            }
            return Some(line.to_owned());
        }
        let input_fields = split(line, self.input_delimiter.as_str());
        let mut output_fields: Vec<String> = Vec::new();
        let mut output_column: usize = 0;
        while output_column < self.fields.len()
            invariant
                self@.valid(),
                converter.agrees_with(self@.wrap_fields, self@.escape_fields),
                output_column <= self.fields.len(),
                texts(input_fields@) == split_spec(line@, self@.input_delimiter),
                texts(output_fields@) == output_values(self@, texts(input_fields@)).take(
                    output_column as int,
                ),
            decreases self.fields.len() - output_column,
        {
            let input_column = self.fields[output_column] - 1;
            let field = if input_column < input_fields.len() {
                input_fields[input_column].clone()
            } else {
                String::new()
            };
            let value = converter.call(output_column, field);
            proof {
                let all = output_values(self@, texts(input_fields@));
                assert(all.take(output_column + 1) =~= all.take(output_column as int).push(
                    all[output_column as int],
                ));
            }
            output_fields.push(value);
            output_column += 1;
        }
        proof {
            let all = output_values(self@, texts(input_fields@));
            assert(all.take(self.fields@.len() as int) =~= all);
        }
        let out_line = join(&output_fields, self.output_delimiter.as_str());
        Some(finish_row(out_line, self.wrap_lines.as_str()))
    }

    /// Formats lines in order, and returns what is written for them.
    pub fn cut(&self, lines: &Vec<String>) -> (out: Vec<String>)
        requires
            self@.valid(),
        ensures
            texts(out@) == format_lines(self@, texts(lines@)),
    {
        let converter = self.converter();
        let mut out: Vec<String> = Vec::new();
        let mut i: usize = 0;
        while i < lines.len()
            invariant
                self@.valid(),
                converter.agrees_with(self@.wrap_fields, self@.escape_fields),
                i <= lines.len(),
                texts(out@) == format_lines(self@, texts(lines@).take(i as int)),
            decreases lines.len() - i,
        {
            proof {
                let done = texts(lines@).take(i + 1);
                assert(done.drop_last() =~= texts(lines@).take(i as int));
            }
            match self.cut_line(lines[i].as_str(), &converter) {
                Some(row) => {
                    out.push(row);
                },
                None => {},
            }
            i += 1;
        }
        proof {
            assert(texts(lines@).take(lines@.len() as int) =~= texts(lines@));
        }
        out
    }
}

} // verus!
