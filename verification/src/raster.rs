//! An 8-bit RGB image: one `[red, green, blue]` triple per slot of a grid.

use crate::grid::{slot, Dimensions};
use vstd::prelude::*;

verus! {

/// A grid of `[red, green, blue]` pixels, stored slot after slot.
#[derive(Debug, PartialEq, Eq)]
pub struct Raster {
    dims: Dimensions,
    pixels: Vec<[u8; 3]>,
}

impl View for Raster {
    type V = Seq<[u8; 3]>;

    /// The pixels, slot after slot.
    closed spec fn view(&self) -> Seq<[u8; 3]> {
        self.pixels@
    }
}

impl Raster {
    #[verifier::type_invariant]
    spec fn well_formed(self) -> bool {
        self.dims.valid() && self.pixels@.len() == self.dims.spec_pixel_count()
    }

    /// The extents of the image.
    pub closed spec fn spec_dimensions(&self) -> Dimensions {
        self.dims
    }

    /// What every value built by [`Raster::new`] satisfies: one pixel per slot.
    pub open spec fn valid(&self) -> bool {
        self.dimensions().valid() && self@.len() == self.dimensions().spec_pixel_count()
    }

    /// An image of the given extents with every pixel set to `fill`.
    pub fn new(dims: Dimensions, fill: [u8; 3]) -> (image: Raster)
        ensures
            image.dimensions() == dims,
            image@ == Seq::new(dims.spec_pixel_count() as nat, |k: int| fill),
    {
        let count: usize = dims.pixel_count();
        let mut pixels: Vec<[u8; 3]> = Vec::new();
        while pixels.len() < count
            invariant
                pixels@.len() <= count,
                forall|k: int| 0 <= k < pixels@.len() ==> pixels@[k] == fill,
            decreases count - pixels@.len(),
        {
            pixels.push(fill);
        }
        Raster { dims, pixels }
    }

    /// The extents of the image.
    #[verifier::when_used_as_spec(spec_dimensions)]
    pub fn dimensions(&self) -> (dims: Dimensions)
        ensures
            dims == self.dimensions(),
            self.valid(),
    {
        proof {
            use_type_invariant(self);
        }
        self.dims
    }

    /// The pixels, slot after slot.
    pub fn pixels(&self) -> (pixels: &Vec<[u8; 3]>)
        ensures
            pixels@ == self@,
            self.valid(),
    {
        proof {
            use_type_invariant(self);
        }
        &self.pixels
    }

    /// The pixel in column `i` of row `j`.
    pub fn get(&self, i: usize, j: usize) -> (rgb: [u8; 3])
        requires
            i < self.dimensions().width(),
            j < self.dimensions().height(),
        ensures
            rgb == self@[slot(self.dimensions().width() as int, i as int, j as int)],
    {
        proof {
            use_type_invariant(self);
        }
        let k: usize = self.dims.index(i, j);
        self.pixels[k]
    }

    /// Replaces the pixel in column `i` of row `j`; every other pixel stays.
    pub fn set(&mut self, i: usize, j: usize, rgb: [u8; 3])
        requires
            i < old(self).dimensions().width(),
            j < old(self).dimensions().height(),
        ensures
            final(self).dimensions() == old(self).dimensions(),
            final(self)@ == old(self)@.update(
                slot(old(self).dimensions().width() as int, i as int, j as int),
                rgb,
            ),
    {
        proof {
            use_type_invariant(&*self);
        }
        let k: usize = self.dims.index(i, j);
        self.pixels[k] = rgb;
    }
}

} // verus!
