//! Small helpers for the ASCII text that topics and payloads are made of.

use vstd::prelude::*;
use vstd::string::*;
use vstd::utf8::is_ascii_chars;

verus! {

/// The bytes of an ASCII text: each character as its code.
pub open spec fn ascii(text: Seq<char>) -> Seq<u8> {
    Seq::new(text.len(), |i: int| text[i] as u8)
}

/// The bytes of `text`, which holds ASCII characters only.
pub(crate) fn ascii_bytes(text: &str) -> (bytes: Vec<u8>)
    requires
        is_ascii_chars(text@),
    ensures
        bytes@ == ascii(text@),
{
    let bytes = text.as_bytes_vec();
    proof {
        is_ascii_spec_bytes(text);
        assert(is_ascii(text));
        assert(bytes@ =~= ascii(text@));
    }
    bytes
}

} // verus!
