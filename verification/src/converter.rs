//! The rewriting of each output column, fixed once per run.
//!
//! Two lists configure the columns by position: the macro names to wrap
//! with, and the escape modes. Either list may be shorter than the number of
//! columns; a column without an entry is not wrapped, or not escaped.

use crate::escape::{escape, escape_spec, lemma_escape_without_specials, EncodingOption};
use crate::text::texts;
use crate::wrap::{wrap, wrap_spec};
use vstd::prelude::*;

verus! {

/// The macro name for a column: the entry at its position, or the empty
/// name where the list has none.
pub open spec fn wrap_name_at(names: Seq<Seq<char>>, id: int) -> Seq<char> {
    if 0 <= id < names.len() {
        names[id]
    } else {
        Seq::empty()
    }
}

/// The escape mode for a column: the entry at its position, or plain where
/// the list has none.
pub open spec fn mode_at(modes: Seq<EncodingOption>, id: int) -> EncodingOption {
    if 0 <= id < modes.len() {
        modes[id]
    } else {
        EncodingOption::Plain
    }
}

/// What a value becomes in a column: escaped first, then wrapped.
pub open spec fn transform_spec(
    value: Seq<char>,
    mode: EncodingOption,
    macro_name: Seq<char>,
) -> Seq<char> {
    wrap_spec(escape_spec(value, mode), macro_name)
}

/// Two tables made for the same lists rewrite every value of every column
/// alike, however many rows each has.
pub proof fn lemma_tables_rewrite_alike(
    first: Converter,
    second: Converter,
    names: Seq<Seq<char>>,
    modes: Seq<EncodingOption>,
    idx: int,
    value: Seq<char>,
)
    requires
        first.agrees_with(names, modes),
        second.agrees_with(names, modes),
        0 <= idx,
    ensures
        first.call_spec(idx, value) == second.call_spec(idx, value),
{
}

/// The macro name that the list of names gives to column `id`.
pub fn field_wrapper(fields: &Vec<String>, id: usize) -> (name: String)
    ensures
        name@ == wrap_name_at(texts(fields@), id as int),
{
    if id >= fields.len() {
        return String::new();
    }
    fields[id].clone()
}

/// The escape mode that the list of modes gives to column `id`.
pub fn field_encoder(fields: &Vec<EncodingOption>, id: usize) -> (mode: EncodingOption)
    ensures
        mode == mode_at(fields@, id as int),
{
    if id >= fields.len() {
        return EncodingOption::Plain;
    }
    fields[id]
}

/// How one column is rewritten.
pub struct ColumnTransform {
    /// The escape mode.
    pub escape: EncodingOption,
    /// The name of the macro to wrap with; empty for none.
    pub wrap: String,
}

impl ColumnTransform {
    /// Escapes the value, then wraps it.
    pub fn apply(&self, value: String) -> (r: String)
        ensures
            r@ == transform_spec(value@, self.escape, self.wrap@),
    {
        wrap(escape(value, self.escape), self.wrap.as_str())
    }
}

/// The table of column rewritings, by column position.
///
/// The table is filled when it is made and never changes, so a column is
/// rewritten in the same way every time. A column beyond the end of the
/// table is left as it is.
pub struct Converter {
    /// The rewriting of each column, by position.
    pub columns: Vec<ColumnTransform>,
}

impl Converter {
    /// The escape mode of column `idx`.
    pub open spec fn mode(&self, idx: int) -> EncodingOption {
        if 0 <= idx < self.columns@.len() {
            self.columns@[idx].escape
        } else {
            EncodingOption::Plain
        }
    }

    /// The macro name of column `idx`.
    pub open spec fn wrap_name(&self, idx: int) -> Seq<char> {
        if 0 <= idx < self.columns@.len() {
            self.columns@[idx].wrap@
        } else {
            Seq::empty()
        }
    }

    /// What the table makes of a value in column `idx`.
    pub open spec fn call_spec(&self, idx: int, value: Seq<char>) -> Seq<char> {
        transform_spec(value, self.mode(idx), self.wrap_name(idx))
    }

    /// The table rewrites every column as the two lists say.
    pub open spec fn agrees_with(&self, names: Seq<Seq<char>>, modes: Seq<EncodingOption>) -> bool {
        &&& forall|idx: int| 0 <= idx ==> #[trigger] self.mode(idx) == mode_at(modes, idx)
        &&& forall|idx: int|
            0 <= idx ==> #[trigger] self.wrap_name(idx) == wrap_name_at(names, idx)
    }

    /// Builds the table for the two lists. It has a row for every position
    /// that either list has an entry for.
    pub fn new(wrap_fields: &Vec<String>, escape_fields: &Vec<EncodingOption>) -> (c: Converter)
        ensures
            c.agrees_with(texts(wrap_fields@), escape_fields@),
            c.columns@.len() == if wrap_fields@.len() >= escape_fields@.len() {
                wrap_fields@.len()
            } else {
                escape_fields@.len()
            },
    {
        let rows: usize = if wrap_fields.len() >= escape_fields.len() {
            wrap_fields.len()
        } else {
            escape_fields.len()
        };
        let mut columns: Vec<ColumnTransform> = Vec::new();
        let mut id: usize = 0;
        while id < rows
            invariant
                id <= rows,
                rows >= wrap_fields@.len(),
                rows >= escape_fields@.len(),
                columns@.len() == id,
                forall|k: int|
                    0 <= k < id ==> (#[trigger] columns@[k]).escape == mode_at(escape_fields@, k)
                        && columns@[k].wrap@ == wrap_name_at(texts(wrap_fields@), k),
            decreases rows - id,
        {
            columns.push(
                ColumnTransform {
                    escape: field_encoder(escape_fields, id),
                    wrap: field_wrapper(wrap_fields, id),
                },
            );
            id += 1;
        }
        Converter { columns }
    }

    /// Rewrites a value as column `idx` asks.
    pub fn call(&self, idx: usize, value: String) -> (r: String)
        ensures
            r@ == self.call_spec(idx as int, value@),
    {
        if idx < self.columns.len() {
            self.columns[idx].apply(value)
        } else {
            proof {
                lemma_escape_without_specials(value@, EncodingOption::Plain);
            }
            value
        }
    }
}

} // verus!
