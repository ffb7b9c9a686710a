//! Colours: the four-channel value of the trail rule's cells and the
//! palette that shows a turmite cell state.

use vstd::prelude::*;

verus! {

/// A red, green, blue, alpha colour, one byte a channel.
#[derive(Clone, Copy, Debug, PartialEq, Eq, Structural)]
pub struct Rgba {
    pub r: u8,
    pub g: u8,
    pub b: u8,
    pub a: u8,
}

/// The colour of an unmarked cell under the trail rule: every channel at
/// its maximum.
pub open spec fn background_spec() -> Rgba {
    Rgba { r: 255, g: 255, b: 255, a: 255 }
}

/// The colour of an unmarked cell under the trail rule.
pub fn background() -> (c: Rgba)
    ensures
        c == background_spec(),
{
    Rgba { r: 255, g: 255, b: 255, a: 255 }
}

/// The display colour of turmite state `code`.
pub open spec fn palette_of(code: int) -> Rgba {
    if code == 0 {
        Rgba { r: 255, g: 255, b: 255, a: 255 }

    } else if code == 1 {
        Rgba { r: 255, g: 61, b: 61, a: 255 }

    } else if code == 2 {
        Rgba { r: 255, g: 193, b: 61, a: 255 }

    } else if code == 3 {
        Rgba { r: 225, g: 255, b: 61, a: 255 }

    } else if code == 4 {
        Rgba { r: 148, g: 255, b: 61, a: 255 }

    } else if code == 5 {
        Rgba { r: 61, g: 255, b: 103, a: 255 }

    } else if code == 6 {
        Rgba { r: 61, g: 255, b: 225, a: 255 }

    } else if code == 7 {
        Rgba { r: 61, g: 190, b: 255, a: 255 }

    } else if code == 8 {
        Rgba { r: 61, g: 86, b: 255, a: 255 }

    } else if code == 9 {
        Rgba { r: 141, g: 61, b: 255, a: 255 }

    } else if code == 10 {
        Rgba { r: 229, g: 61, b: 255, a: 255 }

    } else if code == 11 {
        Rgba { r: 255, g: 61, b: 151, a: 255 }

    } else if code == 12 {
        Rgba { r: 26, g: 117, b: 78, a: 255 }

    } else if code == 13 {
        Rgba { r: 79, g: 91, b: 78, a: 255 }

    } else if code == 14 {
        Rgba { r: 99, g: 74, b: 58, a: 255 }
    } else {
        Rgba { r: 0, g: 0, b: 0, a: 255 }
    }
}

/// The display colour of turmite state `code`.
pub fn palette(code: u8) -> (c: Rgba)
    requires
        code < 16,
    ensures
        c == palette_of(code as int),
{
    match code {
        0 => Rgba { r: 255, g: 255, b: 255, a: 255 },
        1 => Rgba { r: 255, g: 61, b: 61, a: 255 },
        2 => Rgba { r: 255, g: 193, b: 61, a: 255 },
        3 => Rgba { r: 225, g: 255, b: 61, a: 255 },
        4 => Rgba { r: 148, g: 255, b: 61, a: 255 },
        5 => Rgba { r: 61, g: 255, b: 103, a: 255 },
        6 => Rgba { r: 61, g: 255, b: 225, a: 255 },
        7 => Rgba { r: 61, g: 190, b: 255, a: 255 },
        8 => Rgba { r: 61, g: 86, b: 255, a: 255 },
        9 => Rgba { r: 141, g: 61, b: 255, a: 255 },
        10 => Rgba { r: 229, g: 61, b: 255, a: 255 },
        11 => Rgba { r: 255, g: 61, b: 151, a: 255 },
        12 => Rgba { r: 26, g: 117, b: 78, a: 255 },
        13 => Rgba { r: 79, g: 91, b: 78, a: 255 },
        14 => Rgba { r: 99, g: 74, b: 58, a: 255 },
        _ => Rgba { r: 0, g: 0, b: 0, a: 255 },
    }
}

} // verus!
