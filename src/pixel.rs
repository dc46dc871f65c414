//! Pixels of the framebuffer and the framebuffer itself.
use vstd::prelude::*;

verus! {

/// One cell of the framebuffer: unset (black) or set (white).
#[derive(Clone, Copy, PartialEq, Eq, Structural, Debug)]
pub enum Pixel {
    Black,
    White,
}

/// The framebuffer: 32 rows of 64 columns, addressed by `[row][column]`.
pub type Display = [[Pixel; 64]; 32];

/// Whether a pixel is set (white).
pub open spec fn is_set(p: Pixel) -> bool {
    p is White
}

/// Exclusive or of two pixels: set exactly when one of them is set.
pub open spec fn xor_spec(a: Pixel, b: Pixel) -> Pixel {
    if is_set(a) != is_set(b) {
        Pixel::White
    } else {
        Pixel::Black
    }
}

/// The flipped pixel.
pub open spec fn flip(p: Pixel) -> Pixel {
    if is_set(p) {
        Pixel::Black
    } else {
        Pixel::White
    }
}

/// A framebuffer as a sequence of rows, each a sequence of cells.
pub open spec fn screen_of(d: Display) -> Seq<Seq<Pixel>> {
    Seq::new(32, |r: int| d@[r]@)
}

/// A screen of 32 rows of 64 cells.
pub open spec fn screen_wf(s: Seq<Seq<Pixel>>) -> bool {
    s.len() == 32 && forall|r: int| 0 <= r < 32 ==> (#[trigger] s[r]).len() == 64
}

/// The screen with every cell unset.
pub open spec fn blank_screen() -> Seq<Seq<Pixel>> {
    Seq::new(32, |r: int| Seq::new(64, |c: int| Pixel::Black))
}

impl Pixel {
    /// The pixel that a sprite bit stands for: 1 is set, 0 is unset.
    pub fn from_bit(b: u8) -> (r: Pixel)
        requires
            b <= 1,
        ensures
            is_set(r) == (b == 1),
    {
        if b == 1 {
            Pixel::White
        } else {
            Pixel::Black
        }
    }

    /// Whether this pixel is set.
    pub fn is_white(&self) -> (r: bool)
        ensures
            r == is_set(*self),
    {
        match self {
            Pixel::White => true,
            Pixel::Black => false,
        }
    }

    /// Exclusive or of two pixels.
    pub fn xor(self, other: Pixel) -> (r: Pixel)
        ensures
            r == xor_spec(self, other),
    {
        if self.is_white() != other.is_white() {
            Pixel::White
        } else {
            Pixel::Black
        }
    }
}

/// A framebuffer with every cell unset.
pub fn blank_display() -> (r: Display)
    ensures
        screen_of(r) == blank_screen(),
{
    let r = [[Pixel::Black; 64]; 32];
    assert(screen_of(r) =~= blank_screen()) by {
        assert forall|k: int| 0 <= k < 32 implies screen_of(r)[k] =~= blank_screen()[k] by {}
    }
    r
}

} // verus!
