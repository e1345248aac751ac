//! Windows metadata formatting: a five-character attribute string and a
//! fixed owner text, mirroring what the file attributes expose.

use vstd::prelude::*;

use crate::text::push_char;

verus! {

/// The directory bit in a file-attribute word.
pub const FILE_ATTRIBUTE_DIRECTORY: u32 = 0x10;

/// The read-only bit in a file-attribute word.
pub const FILE_ATTRIBUTE_READONLY: u32 = 0x1;

/// The five-character attribute display: the kind flag, an archive flag for
/// plain files, the read-only flag, and two unused positions.
pub open spec fn spec_permissions(attributes: u32) -> Seq<char> {
    seq![
        if attributes & 0x10 != 0 {
            'd'
        } else {
            '-'
        },
        if attributes & 0x10 != 0 {
            '-'
        } else {
            'a'
        },
        if attributes & 0x1 != 0 {
            'r'
        } else {
            '-'
        },
        '-',
        '-',
    ]
}

/// Renders the attribute string for an entry from its attribute word.
pub fn format_permissions(attributes: u32) -> (r: String)
    ensures
        r@ == spec_permissions(attributes),
{
    let dir = (attributes & FILE_ATTRIBUTE_DIRECTORY) != 0;
    let readonly = (attributes & FILE_ATTRIBUTE_READONLY) != 0;
    let mut r = String::new();
    push_char(&mut r, if dir { 'd' } else { '-' });
    push_char(&mut r, if dir { '-' } else { 'a' });
    push_char(&mut r, if readonly { 'r' } else { '-' });
    push_char(&mut r, '-');
    push_char(&mut r, '-');
    proof {
        assert(r@ =~= spec_permissions(attributes));
    }
    r
}

/// The owner column on this platform: a fixed placeholder name.
pub fn get_owner() -> (r: String)
    ensures
        r@ == "user"@,
{
    String::from_str("user")
}

} // verus!
