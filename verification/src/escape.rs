//! Escaping of field text for LaTeX.

use crate::buffer::TextBuffer;
use vstd::prelude::*;

verus! {

/// How the text of a field is escaped.
#[derive(Clone, Copy, Debug, PartialEq, Eq, Structural)]
pub enum EncodingOption {
    /// Escape what LaTeX reads as markup.
    LaTeX,
    /// Escape what a listing reads as markup.
    Listing,
    /// Leave the text as it is.
    Plain,
}

/// The characters that LaTeX mode replaces by a macro.
pub open spec fn is_latex_macro_special(c: char) -> bool {
    c == '~' || c == '^' || c == '\\'
}

/// The characters that LaTeX mode puts a backslash in front of.
pub open spec fn is_latex_simple_special(c: char) -> bool {
    c == '&' || c == '%' || c == '$' || c == '#' || c == '_' || c == '{' || c == '}'
}

/// The characters that listing mode puts a backslash in front of.
pub open spec fn is_listing_special(c: char) -> bool {
    c == '\\' || c == '_' || c == '{' || c == '}'
}

/// Whether a mode changes the character at all.
pub open spec fn is_special(c: char, mode: EncodingOption) -> bool {
    match mode {
        EncodingOption::LaTeX => is_latex_macro_special(c) || is_latex_simple_special(c),
        EncodingOption::Listing => is_listing_special(c),
        EncodingOption::Plain => false,
    }
}

/// What one character becomes in LaTeX mode.
///
/// Mind the pairing of the first two: `^` gives `\textasciitilde{}` and `~`
/// gives `\textasciicircum{}`, the reverse of what the macro names suggest.
/// Existing documents rely on it, so it stays.
pub open spec fn latex_char(c: char) -> Seq<char> {
    if c == '^' {
        "\\textasciitilde{}"@
    } else if c == '~' {
        "\\textasciicircum{}"@
    } else if c == '\\' {
        "\\textbackslash{}"@
    } else if is_latex_simple_special(c) {
        seq!['\\', c]
    } else {
        seq![c]
    }
}

/// What one character becomes in listing mode.
pub open spec fn listing_char(c: char) -> Seq<char> {
    if is_listing_special(c) {
        seq!['\\', c]
    } else {
        seq![c]
    }
}

/// What one character becomes in the given mode.
pub open spec fn escape_char(c: char, mode: EncodingOption) -> Seq<char> {
    match mode {
        EncodingOption::LaTeX => latex_char(c),
        EncodingOption::Listing => listing_char(c),
        EncodingOption::Plain => seq![c],
    }
}

/// The text with each character replaced, in order, by what it becomes in
/// the given mode.
pub open spec fn escape_spec(text: Seq<char>, mode: EncodingOption) -> Seq<char>
    decreases text.len(),
{
    if text.len() == 0 {
        Seq::empty()
    } else {
        escape_spec(text.drop_last(), mode) + escape_char(text.last(), mode)
    }
}

/// Text in which no character is special to the mode comes out of the
/// escaping unchanged. In plain mode no character is special, so there every
/// text is unchanged.
pub proof fn lemma_escape_without_specials(text: Seq<char>, mode: EncodingOption)
    requires
        forall|i: int| 0 <= i < text.len() ==> !is_special(#[trigger] text[i], mode),
    ensures
        escape_spec(text, mode) == text,
    decreases text.len(),
{
    if text.len() > 0 {
        lemma_escape_without_specials(text.drop_last(), mode);
    }
}

/// Text without any of the characters that LaTeX mode changes comes out of
/// every mode unchanged.
pub proof fn lemma_escape_ordinary_text(text: Seq<char>)
    requires
        forall|i: int|
            0 <= i < text.len() ==> !is_special(#[trigger] text[i], EncodingOption::LaTeX),
    ensures
        escape_spec(text, EncodingOption::Plain) == text,
        escape_spec(text, EncodingOption::Listing) == text,
        escape_spec(text, EncodingOption::LaTeX) == text,
{
    lemma_escape_without_specials(text, EncodingOption::Plain);
    lemma_escape_without_specials(text, EncodingOption::Listing);
    lemma_escape_without_specials(text, EncodingOption::LaTeX);
}

/// Escapes text for LaTeX.
pub fn escape_latex(value: String) -> (r: String)
    ensures
        r@ == escape_spec(value@, EncodingOption::LaTeX),
{
    let mut buffer = TextBuffer::new();
    for ch in it: value.as_str().chars()
        invariant
            it.seq() == value@,
            buffer.wf(),
            buffer.text() == escape_spec(value@.take(it.index()), EncodingOption::LaTeX),
    {
        proof {
            let done = value@.take(it.index() + 1);
            assert(done.drop_last() =~= value@.take(it.index()));
        }
        if ch == '~' || ch == '^' || ch == '\\' {
            if ch == '^' {
                buffer.push_str("\\textasciitilde{}");
            } else if ch == '~' {
                buffer.push_str("\\textasciicircum{}");
            } else {
                buffer.push_str("\\textbackslash{}");
            }
        } else {
            if ch == '&' || ch == '%' || ch == '$' || ch == '#' || ch == '_' || ch == '{' || ch
                == '}' {
                buffer.push('\\');
            }
            buffer.push(ch);
        }
    }
    proof {
        assert(value@.take(value@.len() as int) =~= value@);
    }
    buffer.finish()
}

/// Escapes text for a listing.
pub fn escape_listing(value: String) -> (r: String)
    ensures
        r@ == escape_spec(value@, EncodingOption::Listing),
{
    let mut buffer = TextBuffer::new();
    for ch in it: value.as_str().chars()
        invariant
            it.seq() == value@,
            buffer.wf(),
            buffer.text() == escape_spec(value@.take(it.index()), EncodingOption::Listing),
    {
        proof {
            let done = value@.take(it.index() + 1);
            assert(done.drop_last() =~= value@.take(it.index()));
        }
        if ch == '\\' || ch == '_' || ch == '{' || ch == '}' {
            buffer.push('\\');
        }
        buffer.push(ch);
    }
    proof {
        assert(value@.take(value@.len() as int) =~= value@);
    }
    buffer.finish()
}

/// Escapes text in the given mode.
pub fn escape(value: String, mode: EncodingOption) -> (r: String)
    ensures
        r@ == escape_spec(value@, mode),
{
    match mode {
        EncodingOption::LaTeX => escape_latex(value),
        EncodingOption::Listing => escape_listing(value),
        EncodingOption::Plain => {
            proof {
                lemma_escape_without_specials(value@, mode);
            }
            value
        },
    }
}

} // verus!
