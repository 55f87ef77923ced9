use vstd::prelude::*;

verus! {

/// A finished 8-bit RGB image ready for an encoder: `width * height`
/// pixels of three bytes each, row-major.
pub struct OutImage {
    width: usize,
    height: usize,
    data: Vec<u8>,
}

impl View for OutImage {
    /// Width, height and bytes.
    type V = (nat, nat, Seq<u8>);

    closed spec fn view(&self) -> (nat, nat, Seq<u8>) {
        (self.width as nat, self.height as nat, self.data@)
    }
}

impl OutImage {
    #[verifier::type_invariant]
    spec fn inv(self) -> bool {
        self.data@.len() == self.width * self.height * 3
    }

    /// Wraps the bytes of an image; they must be `width * height * 3` long.
    pub fn new(width: usize, height: usize, data: Vec<u8>) -> (r: Self)
        requires
            data@.len() == width * height * 3,
        ensures
            r@ == (width as nat, height as nat, data@),
    {
        OutImage { width, height, data }
    }

    pub fn width(&self) -> (r: usize)
        ensures
            r == self@.0,
    {
        self.width
    }

    pub fn height(&self) -> (r: usize)
        ensures
            r == self@.1,
    {
        self.height
    }

    /// The bytes, three per pixel.
    pub fn data(&self) -> (r: &Vec<u8>)
        ensures
            r@ == self@.2,
            r@.len() == self@.0 * self@.1 * 3,
    {
        proof {
            use_type_invariant(self);
        }
        &self.data
    }
}

} // verus!
