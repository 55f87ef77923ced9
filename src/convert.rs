use std::marker::PhantomData;
use vstd::prelude::*;

use crate::colorspace::Srgb;
use crate::image::{lemma_len_fits, Error, Image};

verus! {

/// A sample scaled from `[0, level]` to `[0, 255]`, rounded down; samples
/// above the level saturate.
pub open spec fn to_byte(v: u16, level: u16) -> u8 {
    if v >= level {
        255
    } else {
        (v as int * 255 / level as int) as u8
    }
}

impl Image<u16, Srgb> {
    /// Eight bits per sample, each scaled by the whitelevel of its own
    /// channel. Fails with `ZeroWhitelevel` if a whitelevel is zero.
    pub fn bytes(self) -> (r: Result<Image<u8, Srgb>, Error>)
        requires
            self.wf(),
        ensures
            (self.metadata.whitelevels[0] != 0 && self.metadata.whitelevels[1] != 0
                && self.metadata.whitelevels[2] != 0) <==> r is Ok,
            r matches Err(e) ==> e == Error::ZeroWhitelevel,
            r matches Ok(out) ==> {
                &&& out.wf()
                &&& out.width == self.width
                &&& out.height == self.height
                &&& out.metadata == self.metadata
                &&& forall|i: int|
                    0 <= i < out.data@.len() ==> #[trigger] out.data@[i] == to_byte(
                        self.data@[i],
                        self.metadata.whitelevels[i % 3],
                    )
            },
    {
        let levels = self.metadata.whitelevels;
        if levels[0] == 0 || levels[1] == 0 || levels[2] == 0 {
            return Err(Error::ZeroWhitelevel);
        }
        proof {
            lemma_len_fits(&self.data);
        }
        let mut out: Vec<u8> = Vec::new();
        let mut i: usize = 0;
        while i < self.data.len()
            invariant
                levels == self.metadata.whitelevels,
                levels[0] != 0 && levels[1] != 0 && levels[2] != 0,
                i <= self.data@.len(),
                out@.len() == i,
                forall|j: int|
                    0 <= j < i ==> #[trigger] out@[j] == to_byte(self.data@[j], levels[j % 3]),
            decreases self.data@.len() - i,
        {
            let v = self.data[i];
            let level = levels[i % 3];
            let b: u8 = if v >= level {
                255
            } else {
                proof {
                    assert(v as int * 255 / level as int <= 255) by (nonlinear_arith)
                        requires
                            v < level,
                            level > 0,
                    ;
                }
                ((v as u32) * 255 / (level as u32)) as u8
            };
            out.push(b);
            i = i + 1;
        }
        Ok(Image {
            width: self.width,
            height: self.height,
            metadata: self.metadata,
            data: out,
            phantom: PhantomData,
        })
    }
}

} // verus!
