//! Wrapping of text in a LaTeX macro.

use vstd::prelude::*;

verus! {

/// The text as the argument of the macro: a backslash, the macro's name, and
/// the text between braces. With an empty name, the text alone. Neither the
/// name nor the text is escaped here.
pub open spec fn wrap_spec(text: Seq<char>, macro_name: Seq<char>) -> Seq<char> {
    if macro_name.len() == 0 {
        text
    } else {
        seq!['\\'] + macro_name + seq!['{'] + text + seq!['}']
    }
}

/// Wraps the text in the macro of the given name; an empty name means no
/// macro.
pub fn wrap(text: String, macro_name: &str) -> (r: String)
    ensures
        r@ == wrap_spec(text@, macro_name@),
{
    if macro_name.is_empty() {
        return text;
    }
    proof {
        reveal_strlit("\\");
        reveal_strlit("{");
        reveal_strlit("}");
    }
    let mut r = String::from_str("\\");
    r.append(macro_name);
    r.append("{");
    r.append(text.as_str());
    r.append("}");
    r
}

} // verus!
