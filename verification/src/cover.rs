//! Pictures as rows of RGB pixels.

use vstd::prelude::*;

verus! {

/// A picture: three bytes a pixel, row by row from the top.
#[derive(Debug, Clone)]
pub struct Cover {
    pub width: u32,
    pub height: u32,
    pub rgb: Vec<u8>,
}

impl Cover {
    /// Whether there are as many bytes as the size calls for.
    pub open spec fn wf(self) -> bool {
        self.rgb@.len() == self.width as nat * self.height as nat * 3
    }

    /// A black picture of the given size.
    pub fn solid(width: u32, height: u32) -> (r: Self)
        requires
            width as nat * height as nat * 3 <= usize::MAX,
        ensures
            r.wf(),
            r.width == width,
            r.height == height,
            forall|i: int| 0 <= i < r.rgb@.len() ==> r.rgb@[i] == 0,
    {
        let area: u64 = (width as u64) * (height as u64);
        let len: usize = (area as usize) * 3;
        let mut rgb: Vec<u8> = Vec::new();
        while rgb.len() < len
            invariant
                rgb@.len() <= len,
                forall|i: int| 0 <= i < rgb@.len() ==> rgb@[i] == 0,
            decreases len - rgb.len(),
        {
            rgb.push(0);
        }
        Cover { width, height, rgb }
    }
}

} // verus!
