//! Characters and strings: what the library needs of std beyond what vstd
//! states of it.

use vstd::prelude::*;
use vstd::std_specs::iter::IteratorSpec;

verus! {

/// Whether `code` is the number of a character: a code point that is no
/// surrogate.
pub open spec fn is_scalar_code(code: int) -> bool {
    0 <= code < 0xD800 || 0xE000 <= code <= 0x10FFFF
}

/// `String::push` appends the character to the string.
pub assume_specification[ String::push ](text: &mut String, c: char)
    ensures
        final(text)@ == old(text)@.push(c),
;

/// `char::from_u32` gives the character with the number `code`, and nothing
/// where `code` is a surrogate or beyond U+10FFFF.
pub assume_specification[ char::from_u32 ](code: u32) -> (c: Option<char>)
    ensures
        is_scalar_code(code as int) ==> c == Some(code as char),
        !is_scalar_code(code as int) ==> c is None,
;

/// The characters of `text`, one by one.
pub fn chars_of(text: &str) -> (chars: Vec<char>)
    ensures
        chars@ == text@,
{
    broadcast use vstd::string::group_string_axioms;

    let mut chars: Vec<char> = Vec::new();
    let mut rest = text.chars();
    loop
        invariant
            chars@ + rest.remaining() == text@,
        ensures
            chars@ == text@,
        decreases text@.len() - chars@.len(),
    {
        match rest.next() {
            Some(c) => {
                chars.push(c);
                assert(chars@ + rest.remaining() =~= text@);
            },
            None => {
                assert(chars@ =~= chars@ + rest.remaining());
                break;
            },
        }
    }
    chars
}

} // verus!
