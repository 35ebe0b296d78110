//! The byte buffer of the `string_builder` crate, as the escaping routines
//! see it: a sequence of bytes that only grows, and that is turned into a
//! `String` at the end.
//!
//! Nothing in this file is proved. Each contract restates what the source of
//! `string_builder` does.

use std::string::FromUtf8Error;
use string_builder::Builder;
use vstd::prelude::*;
use vstd::utf8::*;

verus! {

/// `string_builder::Builder`. Nothing inside it is visible here; what it
/// holds is spoken of through `builder_bytes`.
#[verifier::external_type_specification]
#[verifier::external_body]
pub struct ExBuilder(Builder);

/// `std::string::FromUtf8Error`, the error of `Builder::string`. It is only
/// passed on, never looked into.
#[verifier::external_type_specification]
#[verifier::external_body]
pub struct ExFromUtf8Error(FromUtf8Error);

/// The bytes that a builder holds, oldest first.
pub uninterp spec fn builder_bytes(b: Builder) -> Seq<u8>;

/// `Builder::default`: a builder that holds no bytes.
#[verifier::external_body]
pub(crate) fn builder_default() -> (b: Builder)
    ensures
        builder_bytes(b) == Seq::<u8>::empty(),
{
    Builder::default()
}

/// `Builder::append` with a `char`, which takes its bytes from
/// `<char as ToBytes>::to_bytes`: the UTF-8 encoding of the character is
/// added behind the bytes already held.
#[verifier::external_body]
pub(crate) fn builder_append_char(b: &mut Builder, c: char)
    ensures
        builder_bytes(*final(b)) == builder_bytes(*old(b)) + encode_utf8(seq![c]),
{
    b.append(c)
}

/// `Builder::append` with a string slice, which takes its bytes from
/// `<&str as ToBytes>::to_bytes`: the bytes of the text, that is its UTF-8
/// encoding, are added behind the bytes already held.
#[verifier::external_body]
pub(crate) fn builder_append_str(b: &mut Builder, text: &str)
    ensures
        builder_bytes(*final(b)) == builder_bytes(*old(b)) + encode_utf8(text@),
{
    b.append(text)
}

/// `Builder::string`: hands the bytes to `String::from_utf8`, which returns
/// the text that they encode where they are valid UTF-8, and an error where
/// they are not.
#[verifier::external_body]
pub(crate) fn builder_string(b: Builder) -> (r: Result<String, FromUtf8Error>)
    ensures
        r is Ok <==> valid_utf8(builder_bytes(b)),
        r matches Ok(s) ==> encode_utf8(s@) == builder_bytes(b),
{
    b.string()
}

} // verus!
