//! Text tokens labelling the nodes of an expression tree.

use vstd::prelude::*;
use vstd::string::*;
use vstd::utf8::{encode_utf8, is_char_boundary};
use crate::nodes::Shown;

verus! {

/// The bytes `bytes` with those from `begin` up to `end` replaced by `inserted`.
pub open spec fn spliced(bytes: Seq<u8>, begin: int, end: int, inserted: Seq<u8>) -> Seq<u8> {
    bytes.subrange(0, begin) + inserted + bytes.subrange(end, bytes.len() as int)
}

/// The bytes of `bytes` from `begin` up to `end` are whole characters.
pub open spec fn whole_chars(bytes: Seq<u8>, begin: int, end: int) -> bool {
    begin <= end && is_char_boundary(bytes, begin) && is_char_boundary(bytes, end)
}

/// Replaces the bytes of `text` from `begin` up to `end` with `inserted`.
///
/// Calls `String::replace_range`. Claimed of it: where the range holds whole
/// characters, the text afterwards is encoded by the bytes before the range,
/// those of `inserted`, and the bytes after the range. It panics on other ranges.
#[verifier::external_body]
fn replace_range(text: &mut String, begin: usize, end: usize, inserted: &str)
    requires
        whole_chars(encode_utf8(old(text)@), begin as int, end as int),
    ensures
        encode_utf8(final(text)@) == spliced(
            encode_utf8(old(text)@),
            begin as int,
            end as int,
            encode_utf8(inserted@),
        ),
{
    text.replace_range(begin..end, inserted)
}

/// Text token.
#[derive(Debug)]
pub struct Token {
    text: String,
}

impl View for Token {
    type V = Seq<char>;

    closed spec fn view(&self) -> Seq<char> {
        self.text@
    }
}

impl Token {
    /// The bytes that encode the text of the token.
    pub open spec fn bytes(&self) -> Seq<u8> {
        encode_utf8(self@)
    }

    /// Constructs a Token from parts.
    pub fn from_parts(text: String) -> (out: Self)
        ensures
            out@ == text@,
    {
        Token { text }
    }

    /// Deconstructs a Token into parts.
    pub fn into_parts(self) -> (out: String)
        ensures
            out@ == self@,
    {
        self.text
    }

    /// Constructs a Token from text.
    pub fn from_str(token: &str) -> (out: Self)
        ensures
            out@ == token@,
    {
        Token { text: String::from_str(token) }
    }

    /// Gets the token text.
    pub fn as_str(&self) -> (out: &str)
        ensures
            out@ == self@,
    {
        self.text.as_str()
    }

    /// Replaces the bytes of the text from `begin` up to `end` with `text`, and
    /// hands `self` back. Where the range does not hold whole characters nothing
    /// is changed and nothing is returned.
    pub fn splice_checked(&mut self, begin: usize, end: usize, text: &str) -> (out: Option<&mut Self>)
        ensures
            match out {
                Some(token) => whole_chars(old(self).bytes(), begin as int, end as int)
                    && token.bytes() == spliced(
                    old(self).bytes(),
                    begin as int,
                    end as int,
                    encode_utf8(text@),
                ) && *final(self) == *final(token),
                None => !whole_chars(old(self).bytes(), begin as int, end as int) && *final(self)
                    == *old(self),
            },
    {
        if begin > end || !self.text.as_str().is_char_boundary(begin)
            || !self.text.as_str().is_char_boundary(end) {
            return None;
        }
        replace_range(&mut self.text, begin, end, text);
        Some(self)
    }

    /// Replaces the bytes of the text from `begin` up to `end` with `text`, and
    /// hands `self` back.
    pub fn splice(&mut self, begin: usize, end: usize, text: &str) -> (out: &mut Self)
        requires
            whole_chars(old(self).bytes(), begin as int, end as int),
        ensures
            out.bytes() == spliced(old(self).bytes(), begin as int, end as int, encode_utf8(text@)),
            *final(self) == *final(out),
    {
        replace_range(&mut self.text, begin, end, text);
        self
    }
}

impl From<&str> for Token {
    /// Constructs a Token from text.
    fn from(from: &str) -> (out: Self)
        ensures
            out@ == from@,
    {
        Token::from_str(from)
    }
}

/// What the conversion gives is stated on `from` itself: the text of the result
/// has no value in specifications that `from_spec` could name.
impl vstd::std_specs::convert::FromSpecImpl<&str> for Token {
    open spec fn obeys_from_spec() -> bool {
        false
    }

    open spec fn from_spec(from: &str) -> Self {
        arbitrary()
    }
}

impl std::str::FromStr for Token {
    type Err = std::convert::Infallible;

    /// Constructs a Token from text; this never fails.
    fn from_str(text: &str) -> (out: Result<Self, Self::Err>) {
        Ok(Token::from_str(text))
    }
}

impl Clone for Token {
    fn clone(&self) -> (out: Self)
        ensures
            out@ == self@,
    {
        Token { text: self.text.clone() }
    }
}

impl PartialEq for Token {
    fn eq(&self, rhs: &Token) -> (out: bool) {
        self.text == rhs.text
    }
}

impl vstd::std_specs::cmp::PartialEqSpecImpl for Token {
    open spec fn obeys_eq_spec() -> bool {
        true
    }

    open spec fn eq_spec(&self, rhs: &Token) -> bool {
        self@ == rhs@
    }
}

impl PartialEq<()> for Token {
    /// A token never equals the absence of information.
    fn eq(&self, rhs: &()) -> (out: bool) {
        false
    }
}

impl vstd::std_specs::cmp::PartialEqSpecImpl<()> for Token {
    open spec fn obeys_eq_spec() -> bool {
        true
    }

    open spec fn eq_spec(&self, rhs: &()) -> bool {
        false
    }
}

impl Shown for Token {
    open spec fn shown(&self) -> Seq<char> {
        self@
    }

    fn to_string(&self) -> (text: String) {
        String::from_str(self.as_str())
    }
}

} // verus!
