//! An interpreter core for a small byte-code machine with a monochrome framebuffer.
use vstd::prelude::*;

pub mod pixel;
pub mod registers;
pub mod machine;
pub mod laws;

verus! {

} // verus!
