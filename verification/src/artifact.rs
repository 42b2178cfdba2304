//! What can be said of a compiled font without reading its tables.
//!
//! A binary font is a container: it opens with a table directory, which tells
//! a reader where each table lies. The bridge never looks further than that.
//! The engine builds fonts with TrueType outlines only, so the directory
//! always opens with the TrueType signature.

use vstd::prelude::*;

verus! {

/// The four bytes that open a font with TrueType outlines.
pub open spec fn truetype_signature() -> Seq<u8> {
    seq![0x00u8, 0x01u8, 0x00u8, 0x00u8]
}

/// The length of a table directory that lists no table: the signature, the
/// number of tables, and three numbers that help a reader search the list.
pub open spec fn directory_header_len() -> nat {
    12
}

/// Whether `bytes` open as a TrueType font does: with the whole header of a
/// table directory, and in it the TrueType signature.
pub open spec fn opens_as_truetype(bytes: Seq<u8>) -> bool {
    &&& bytes.len() >= directory_header_len()
    &&& bytes.subrange(0, 4) == truetype_signature()
}

/// Whether `bytes` open as a TrueType font does.
pub fn has_truetype_header(bytes: &[u8]) -> (r: bool)
    ensures
        r == opens_as_truetype(bytes@),
{
    if bytes.len() < 12 {
        return false;
    }
    let signed = bytes[0] == 0x00 && bytes[1] == 0x01 && bytes[2] == 0x00 && bytes[3] == 0x00;
    proof {
        let head = bytes@.subrange(0, 4);
        assert(head[0] == bytes@[0] && head[1] == bytes@[1] && head[2] == bytes@[2] && head[3]
            == bytes@[3]);
        assert(signed <==> head =~= truetype_signature());
    }
    signed
}

/// A TrueType font is never empty: it has at least the twelve bytes of the
/// header, of which the first four are `00 01 00 00`.
pub proof fn lemma_font_is_not_empty(bytes: Seq<u8>)
    requires
        opens_as_truetype(bytes),
    ensures
        bytes.len() > 0,
        bytes.len() >= 12,
        bytes[0] == 0x00u8,
        bytes[1] == 0x01u8,
        bytes[2] == 0x00u8,
        bytes[3] == 0x00u8,
{
    let head = bytes.subrange(0, 4);
    assert(head[0] == bytes[0] && head[1] == bytes[1] && head[2] == bytes[2] && head[3]
        == bytes[3]);
}

} // verus!
