//! A text buffer on top of the byte builder.
//!
//! The builder holds bytes. What is appended here is always whole characters,
//! so the bytes stay valid UTF-8 and the buffer can be read as text at any
//! time. This file proves that, once for all users of the buffer.

use crate::builder::{
    builder_append_char, builder_append_str, builder_bytes, builder_default, builder_string,
};
use string_builder::Builder;
use vstd::prelude::*;
use vstd::utf8::*;

verus! {

/// Encoding a concatenation gives the concatenation of the encodings.
pub proof fn lemma_encode_utf8_concat(a: Seq<char>, b: Seq<char>)
    ensures
        encode_utf8(a + b) == encode_utf8(a) + encode_utf8(b),
    decreases a.len(),
{
    if a.len() > 0 {
        lemma_encode_utf8_concat(a.drop_first(), b);
        assert((a + b).drop_first() =~= a.drop_first() + b);
    }
}

/// Text under construction.
pub struct TextBuffer {
    inner: Builder,
}

impl TextBuffer {
    /// The bytes held are the encoding of some text.
    pub closed spec fn wf(&self) -> bool {
        valid_utf8(builder_bytes(self.inner))
    }

    /// The text held so far.
    pub closed spec fn text(&self) -> Seq<char> {
        decode_utf8(builder_bytes(self.inner))
    }

    /// An empty buffer.
    pub fn new() -> (r: TextBuffer)
        ensures
            r.wf(),
            r.text() == Seq::<char>::empty(),
    {
        TextBuffer { inner: builder_default() }
    }

    /// Adds one character at the end.
    pub fn push(&mut self, c: char)
        requires
            old(self).wf(),
        ensures
            final(self).wf(),
            final(self).text() == old(self).text().push(c),
    {
        proof {
            self.lemma_extend(seq![c]);
        }
        builder_append_char(&mut self.inner, c);
    }

    /// Adds a text at the end.
    pub fn push_str(&mut self, s: &str)
        requires
            old(self).wf(),
        ensures
            final(self).wf(),
            final(self).text() == old(self).text() + s@,
    {
        proof {
            self.lemma_extend(s@);
        }
        builder_append_str(&mut self.inner, s);
    }

    /// The text held, as a `String`.
    pub fn finish(self) -> (r: String)
        requires
            self.wf(),
        ensures
            r@ == self.text(),
    {
        match builder_string(self.inner) {
            Ok(s) => {
                proof {
                    encode_utf8_decode_utf8(s@);
                }
                s
            },
            Err(_) => vstd::pervasive::unreached(),
        }
    }

    /// The bytes of a valid buffer followed by the encoding of `more` are
    /// valid, and decode to the old text followed by `more`.
    proof fn lemma_extend(&self, more: Seq<char>)
        requires
            self.wf(),
        ensures
            valid_utf8(builder_bytes(self.inner) + encode_utf8(more)),
            decode_utf8(builder_bytes(self.inner) + encode_utf8(more)) == self.text() + more,
    {
        let bytes = builder_bytes(self.inner);
        decode_utf8_encode_utf8(bytes);
        lemma_encode_utf8_concat(self.text(), more);
        encode_utf8_valid_utf8(self.text() + more);
        encode_utf8_decode_utf8(self.text() + more);
    }
}

} // verus!
