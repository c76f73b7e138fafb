//! The naming platforms of a font's name table, and their stable codes.

use vstd::prelude::*;

verus! {

/// A naming platform recognised by the font format's name table.
///
/// The name table tags every entry with the platform whose naming
/// convention the entry follows; the font format defines exactly these
/// five.
#[derive(Clone, Copy, PartialEq, Eq, Structural, Debug)]
pub enum Platform {
    Unicode,
    Macintosh,
    Iso,
    Windows,
    Custom,
}

/// The fixed small integer that the store records for each platform.
pub open spec fn spec_platform_code(p: Platform) -> u8 {
    match p {
        Platform::Unicode => 0,
        Platform::Macintosh => 1,
        Platform::Iso => 2,
        Platform::Windows => 3,
        Platform::Custom => 4,
    }
}

/// Maps a naming platform to its stable code: the four named platforms
/// map to 0, 1, 2 and 3 in that order, and any other (custom) platform
/// maps to 4, with no exceptions.
pub fn platform_code(p: Platform) -> (r: u8)
    ensures
        r == spec_platform_code(p),
{
    match p {
        Platform::Unicode => 0,
        Platform::Macintosh => 1,
        Platform::Iso => 2,
        Platform::Windows => 3,
        Platform::Custom => 4,
    }
}

} // verus!
