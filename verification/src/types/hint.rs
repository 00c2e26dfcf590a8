//! Coin hints: the memo values by which a coin is found.

use vstd::prelude::*;
use vstd::string::*;

use crate::text::{hex_encode, hex_text, lower_char, lower_text};

verus! {

/// One coin hint: the lowercase hex of a memo. A hint carries no position, so the first memo of
/// a coin counts no more than the others.
#[derive(Debug, PartialEq, Eq, PartialOrd, Ord, Hash)]
pub struct Hint(pub String);

impl View for Hint {
    type V = Seq<char>;

    open spec fn view(&self) -> Seq<char> {
        self.0@
    }
}

impl Clone for Hint {
    fn clone(&self) -> (copy: Self)
        ensures
            copy == *self,
    {
        Hint(self.0.clone())
    }
}

/// Whether a text starts with `0x` or `0X`.
pub open spec fn has_hex_prefix(text: Seq<char>) -> bool {
    text.len() >= 2 && text[0] == '0' && (text[1] == 'x' || text[1] == 'X')
}

/// The text without one leading `0x` or `0X`.
pub open spec fn without_hex_prefix(text: Seq<char>) -> Seq<char> {
    if has_hex_prefix(text) {
        text.skip(2)
    } else {
        text
    }
}

/// The key under which a hint text is indexed.
pub open spec fn hint_key(text: Seq<char>) -> Seq<char> {
    lower_text(without_hex_prefix(text))
}

impl Hint {
    /// A hint from hex text, in lower case and without one `0x` prefix.
    pub fn new(hex: &str) -> (hint: Self)
        ensures
            hint@ == hint_key(hex@),
    {
        let len: usize = hex.unicode_len();
        if len >= 2 && hex.get_char(0) == '0' && (hex.get_char(1) == 'x' || hex.get_char(1) == 'X') {
            let body = hex.substring_char(2, len);
            assert(body@ =~= hex@.skip(2));
            Hint(body.to_ascii_lowercase())
        } else {
            Hint(hex.to_ascii_lowercase())
        }
    }

    /// A hint from raw memo bytes.
    pub fn from_bytes(bytes: &[u8]) -> (hint: Self)
        ensures
            hint@ == hex_text(bytes@),
    {
        Hint(hex_encode(bytes))
    }

    /// The hint's hex text.
    pub fn as_str(&self) -> (text: &str)
        ensures
            text@ == self@,
    {
        self.0.as_str()
    }
}

/// Every spelling of a memo is indexed under one key: neither a `0x` prefix nor letter case
/// makes a difference.
pub proof fn hint_spellings_agree(body: Seq<char>, other: Seq<char>)
    requires
        !has_hex_prefix(body),
        !has_hex_prefix(other),
        lower_text(body) == lower_text(other),
    ensures
        hint_key(body) == hint_key(other),
        hint_key(seq!['0', 'x'] + body) == hint_key(other),
        hint_key(seq!['0', 'X'] + body) == hint_key(other),
{
    assert((seq!['0', 'x'] + body).skip(2) =~= body);
    assert((seq!['0', 'X'] + body).skip(2) =~= body);
}

/// A hint built from memo bytes is its own key: writing it out and reading it back as text
/// changes nothing.
pub proof fn byte_hints_are_normal(bytes: Seq<u8>)
    ensures
        hint_key(hex_text(bytes)) == hex_text(bytes),
{
    let text = hex_text(bytes);
    assert forall|i: int| 0 <= i < text.len() implies lower_char(#[trigger] text[i]) == text[i]
        && text[i] != 'x' && text[i] != 'X' by {
        let b = bytes[i / 2];
        assert(0 <= b as int / 16 < 16);
        assert(0 <= b as int % 16 < 16);
    }
    assert(!has_hex_prefix(text));
    assert(lower_text(text) =~= text);
}

} // verus!
