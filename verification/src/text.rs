//! Character-level operations on text.
//!
//! Text is viewed as a sequence of characters; positions are character
//! positions, never byte offsets.

use vstd::prelude::*;
use vstd::string::StringSliceAdditionalSpecFns;
use vstd::utf8::encode_utf8_decode_utf8;

verus! {

/// The mathematical value of a text that may be missing.
pub open spec fn optional_text(text: Option<String>) -> Option<Seq<char>> {
    match text {
        Some(text) => Some(text@),
        None => None,
    }
}

/// The position of the first `needle` in `text`, if there is one.
pub fn find_first(text: &str, needle: char) -> (found: Option<usize>)
    ensures
        match found {
            Some(at) => at < text@.len() && text@.index_of_first(needle) == Some(at as int),
            None => text@.index_of_first(needle) is None,
        },
{
    let length = text.unicode_len();
    let mut position: usize = 0;
    for current in walk: text.chars()
        invariant
            position == walk.index(),
            walk.seq() == text@,
            length == text@.len(),
            forall|j: int| 0 <= j < position ==> text@[j] != needle,
    {
        if current == needle {
            proof {
                text@.index_of_first_ensures(needle);
            }
            return Some(position);
        }
        position = position + 1;
    }
    proof {
        text@.index_of_first_ensures(needle);
    }
    None
}

/// The position of the last `needle` in `text`, if there is one.
pub fn find_last(text: &str, needle: char) -> (found: Option<usize>)
    ensures
        match found {
            Some(at) => at < text@.len() && text@.index_of_last(needle) == Some(at as int),
            None => text@.index_of_last(needle) is None,
        },
{
    let length = text.unicode_len();
    let mut position: usize = 0;
    let mut found: Option<usize> = None;
    for current in walk: text.chars()
        invariant
            position == walk.index(),
            walk.seq() == text@,
            length == text@.len(),
            match found {
                Some(at) => at < position && text@[at as int] == needle && forall|j: int|
                    at < j < position ==> text@[j] != needle,
                None => forall|j: int| 0 <= j < position ==> text@[j] != needle,
            },
    {
        if current == needle {
            found = Some(position);
        }
        position = position + 1;
    }
    proof {
        text@.index_of_last_ensures(needle);
    }
    found
}

/// Whether two texts hold the same characters.
pub fn same_text(left: &str, right: &str) -> (same: bool)
    ensures
        same == (left@ == right@),
{
    let a = left.as_bytes();
    let b = right.as_bytes();
    if a.len() != b.len() {
        return false;
    }
    let mut at: usize = 0;
    while at < a.len()
        invariant
            at <= a@.len(),
            a@.len() == b@.len(),
            a@ == left.spec_bytes(),
            b@ == right.spec_bytes(),
            forall|j: int| 0 <= j < at ==> a@[j] == b@[j],
        decreases a@.len() - at,
    {
        if a[at] != b[at] {
            return false;
        }
        at = at + 1;
    }
    proof {
        assert(a@ =~= b@);
        encode_utf8_decode_utf8(left@);
        encode_utf8_decode_utf8(right@);
    }
    true
}

/// The characters of `text` from position `from` up to, not including, `to`.
pub(crate) fn slice(text: &str, from: usize, to: usize) -> (part: String)
    requires
        from <= to <= text@.len(),
    ensures
        part@ == text@.subrange(from as int, to as int),
{
    text.substring_char(from, to).to_owned()
}

/// `head` followed by `tail`.
pub fn combine(head: &str, tail: &str) -> (whole: String)
    ensures
        whole@ == head@ + tail@,
{
    let mut whole = head.to_owned();
    whole.append(tail);
    whole
}

} // verus!
