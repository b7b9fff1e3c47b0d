//! Cutting a piece out of a text, by character positions.

use vstd::prelude::*;
use vstd::string::*;

verus! {

/// Taken on trust from the standard library, not proved here:
/// `String::push` leaves the string as it was, with the one character
/// added at its end.
pub assume_specification[ String::push ](s: &mut String, c: char)
    ensures
        final(s)@ == old(s)@.push(c),
;

/// A text that can hand out the characters between two positions.
pub trait Substring {
    /// The characters of the text, in order.
    spec fn characters(&self) -> Seq<char>;

    /// The characters from position `start` up to, not including, position
    /// `end`. Positions count characters, not bytes.
    fn substring(&self, start: usize, end: usize) -> (part: String)
        requires
            start <= end <= self.characters().len(),
        ensures
            part@ == self.characters().subrange(start as int, end as int),
    ;
}

impl Substring for String {
    open spec fn characters(&self) -> Seq<char> {
        self@
    }

    fn substring(&self, start: usize, end: usize) -> (part: String) {
        self.as_str().substring_char(start, end).to_owned()
    }
}

impl Substring for Vec<char> {
    open spec fn characters(&self) -> Seq<char> {
        self@
    }

    fn substring(&self, start: usize, end: usize) -> (part: String) {
        let mut part: String = String::new();
        let mut at: usize = start;
        while at < end
            invariant
                start <= at <= end <= self.len(),
                part@ == self@.subrange(start as int, at as int),
            decreases end - at,
        {
            part.push(self[at]);
            at = at + 1;
        }
        part
    }
}

/// The characters of `text`, decoded once so that each can be reached by
/// its position.
pub fn decode(text: &str) -> (chars: Vec<char>)
    ensures
        chars@ == text@,
{
    let mut chars: Vec<char> = Vec::new();
    for c in it: text.chars()
        invariant
            chars@ == it.seq().take(it.index()),
    {
        chars.push(c);
    }
    chars
}

} // verus!
