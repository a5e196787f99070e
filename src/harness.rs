use crate::canvas::Canvas;
use vstd::prelude::*;

verus! {

/// Something that draws a frame onto a canvas each time it is asked.
pub trait App {
    fn update(&self, canvas: &mut Canvas);
}

} // verus!
