//! Detection of the encoding of a triangulated-solid file.

use vstd::prelude::*;

verus! {

/// Number of leading bytes that decide the encoding.
pub const MARKER_LEN: usize = 5;

/// The marker that opens a file in text encoding: the bytes of `solid`.
pub open spec fn text_marker() -> Seq<u8> {
    seq![0x73u8, 0x6fu8, 0x6cu8, 0x69u8, 0x64u8]
}

/// Whether `data` opens with the text marker.
pub open spec fn starts_with_marker(data: Seq<u8>) -> bool {
    data.len() >= 5 && data.subrange(0, 5) == text_marker()
}

/// Tells whether a triangulated-solid file is in text encoding, from its
/// first five bytes: text if they spell `solid`, binary otherwise. The input
/// is only read, so a caller's cursor stays where it was.
pub fn is_ascii(data: &[u8]) -> (text: bool)
    requires
        data@.len() >= MARKER_LEN,
    ensures
        text == starts_with_marker(data@),
{
    let text: bool = data[0] == 0x73 && data[1] == 0x6f && data[2] == 0x6c && data[3] == 0x69
        && data[4] == 0x64;
    proof {
        let head = data@.subrange(0, 5);
        if text {
            assert(head =~= text_marker());
        } else {
            assert(head[0] == data@[0] && head[1] == data@[1] && head[2] == data@[2] && head[3]
                == data@[3] && head[4] == data@[4]);
            assert(text_marker()[0] == 0x73u8 && text_marker()[1] == 0x6fu8 && text_marker()[2]
                == 0x6cu8 && text_marker()[3] == 0x69u8 && text_marker()[4] == 0x64u8);
        }
    }
    text
}

/// Tells the encoding of any input: `None` when it is shorter than the
/// marker, so that nothing can be decided.
pub fn detect_text_encoding(data: &[u8]) -> (text: Option<bool>)
    ensures
        data@.len() < MARKER_LEN ==> text.is_none(),
        data@.len() >= MARKER_LEN ==> text == Some(starts_with_marker(data@)),
{
    if data.len() < MARKER_LEN {
        None
    } else {
        Some(is_ascii(data))
    }
}

} // verus!
