//! Reading characters out of text. Text that is all ASCII is read in
//! constant time per character; other text is decoded from its start.

use vstd::prelude::*;
use vstd::string::*;

verus! {

/// The number of characters of `text`.
pub fn char_count(text: &str, ascii: bool) -> (n: usize)
    requires
        ascii ==> is_ascii(text),
    ensures
        n == text@.len(),
{
    if ascii {
        proof {
            vstd::utf8::is_ascii_chars_encode_utf8(text@);
        }
        text.as_bytes().len()
    } else {
        text.unicode_len()
    }
}

/// The character of `text` at place `i`.
pub fn char_at(text: &str, i: usize, ascii: bool) -> (c: char)
    requires
        ascii ==> is_ascii(text),
        i < text@.len(),
    ensures
        c == text@[i as int],
{
    if ascii {
        let byte: u8 = text.get_ascii(i);
        proof {
            vstd::utf8::is_ascii_chars_nat_bound(text@);
            assert((text@[i as int] as nat) < 128);
        }
        byte as char
    } else {
        text.get_char(i)
    }
}

/// The characters of `text` from place `from` up to place `to`.
pub fn piece<'a>(text: &'a str, from: usize, to: usize, ascii: bool) -> (part: &'a str)
    requires
        ascii ==> is_ascii(text),
        from <= to <= text@.len(),
    ensures
        part@ == text@.subrange(from as int, to as int),
{
    if ascii {
        text.substring_ascii(from, to)
    } else {
        text.substring_char(from, to)
    }
}

} // verus!
