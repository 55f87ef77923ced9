use std::marker::PhantomData;
use vstd::prelude::*;

use crate::cfa::CFA;
use crate::cfa::Color;
use crate::colorspace::{BayerRgb, Colorspace, Hsv, LinRgb};

verus! {

/// Why an image could not be built or transformed.
#[derive(Copy, Clone, Debug, PartialEq, Eq, Structural)]
pub enum Error {
    /// The decoder delivered floating point sensor data.
    FloatImageData,
    /// The sample buffer does not hold `width * height * components` samples.
    DataLength,
    /// The crop margins add up to more than a dimension of the image.
    CropTooLarge,
    /// The image has fewer than two rows or two columns.
    TooSmall,
    /// A whitelevel is zero, so samples cannot be scaled by it.
    ZeroWhitelevel,
}

/// Margins to remove from the sensor border, in the order of CSS.
#[derive(Copy, Clone, Debug, PartialEq, Eq, Structural)]
pub struct Crop {
    pub top: usize,
    pub right: usize,
    pub bottom: usize,
    pub left: usize,
}

impl Crop {
    /// The provided array is in the order top, right, bottom, left. If all
    /// are zero, there is nothing to crop and `None` is returned.
    pub fn from_css_quad(v: [usize; 4]) -> (r: Option<Self>)
        ensures
            (v@[0] == 0 && v@[1] == 0 && v@[2] == 0 && v@[3] == 0) <==> r is None,
            r matches Some(c) ==> c.top == v@[0] && c.right == v@[1] && c.bottom == v@[2]
                && c.left == v@[3],
    {
        if v[0] != 0 || v[1] != 0 || v[2] != 0 || v[3] != 0 {
            Some(Crop { top: v[0], right: v[1], bottom: v[2], left: v[3] })
        } else {
            None
        }
    }

    /// The crop fits inside an image of the given size.
    pub open spec fn fits(self, width: int, height: int) -> bool {
        self.left + self.right <= width && self.top + self.bottom <= height
    }
}

/// What the raw decoder reports besides the samples, as far as the integer
/// stages of the pipeline read it.
#[derive(Copy, Clone, Debug)]
pub struct RawMetadata {
    /// Whitelevel values; the highest value of each channel: red, green, blue.
    pub whitelevels: [u16; 3],
    /// Black levels; the value of each channel in complete darkness.
    pub blacklevels: [u16; 3],
    /// Border still to remove, or `None` once removed.
    pub crop: Option<Crop>,
    pub cfa: CFA,
}

/// Index of the site `(x, y)` in a row-major buffer of the given width.
pub open spec fn site(width: int, x: int, y: int) -> int {
    y * width + x
}

/// An image of `width * height` pixels of `C::components()` samples each,
/// stored row-major and interleaved.
#[derive(Debug)]
pub struct Image<T: Copy, C: Colorspace> {
    pub width: usize,
    pub height: usize,
    pub metadata: RawMetadata,
    pub data: Vec<T>,
    pub phantom: PhantomData<C>,
}

impl<T: Copy, C: Colorspace> Image<T, C> {
    /// The buffer holds exactly one pixel per site.
    pub open spec fn wf(&self) -> bool {
        self.data@.len() == self.width * self.height * C::spec_components()
    }

    /// Sample `c` of the pixel at `(x, y)`.
    pub open spec fn sample(&self, x: int, y: int, c: int) -> T {
        self.data@[site(self.width as int, x, y) * C::spec_components() + c]
    }

    /// Builds an image from its parts, checking the buffer length.
    pub fn from_raw_parts(width: usize, height: usize, metadata: RawMetadata, data: Vec<T>) -> (r:
        Result<Image<T, C>, Error>)
        ensures
            data@.len() == width * height * C::spec_components() <==> r is Ok,
            r matches Ok(img) ==> img.wf() && img.width == width && img.height == height
                && img.metadata == metadata && img.data@ == data@,
            r matches Err(e) ==> e == Error::DataLength,
    {
        let comps = C::components();
        let found = data.len();
        let n = match width.checked_mul(height) {
            Some(n) => n,
            None => {
                proof {
                    lemma_product_bound(width as int, height as int, comps as int);
                }
                return Err(Error::DataLength);
            },
        };
        let len = match n.checked_mul(comps) {
            Some(len) => len,
            None => {
                return Err(Error::DataLength);
            },
        };
        if found != len {
            return Err(Error::DataLength);
        }
        Ok(Image { width, height, metadata, data, phantom: PhantomData })
    }
}

impl<T: Copy> Image<T, BayerRgb> {
    /// Sensor value at `(x, y)`.
    pub open spec fn at(&self, x: int, y: int) -> T {
        self.data@[site(self.width as int, x, y)]
    }

    /// Removes the border that the crop margins name, keeping only the image
    /// itself. A camera may cover part of the sensor to gather black level or
    /// noise information; this drops those parts. The colour filter array is
    /// re-phased so that colours stay attached to the same sites, and the crop
    /// is cleared, so a second call does nothing. Margins that add up to more
    /// than a dimension leave the image as it was and report `CropTooLarge`.
    #[verifier::rlimit(30)]
    pub fn crop(&mut self) -> (r: Result<(), Error>)
        requires
            old(self).wf(),
        ensures
            final(self).wf(),
            match old(self).metadata.crop {
                None => r is Ok && *final(self) == *old(self),
                Some(c) => if c.fits(old(self).width as int, old(self).height as int) {
                    &&& r is Ok
                    &&& final(self).width == old(self).width - (c.left + c.right)
                    &&& final(self).height == old(self).height - (c.top + c.bottom)
                    &&& final(self).metadata.crop is None
                    &&& final(self).metadata.whitelevels == old(self).metadata.whitelevels
                    &&& final(self).metadata.blacklevels == old(self).metadata.blacklevels
                    &&& final(self).metadata.cfa == old(self).metadata.cfa.shift_spec(c.left as int, c.top as int)
                    &&& forall|x: int, y: int|
                        #![trigger final(self).metadata.cfa.spec_color_at(x, y)]
                        final(self).metadata.cfa.spec_color_at(x, y)
                            == old(self).metadata.cfa.spec_color_at(x + c.left, y + c.top)
                    &&& forall|x: int, y: int|
                        0 <= x < final(self).width && 0 <= y < final(self).height
                            ==> #[trigger] final(self).at(x, y)
                                == old(self).at(x + c.left, y + c.top)
                } else {
                    r == Err::<(), Error>(Error::CropTooLarge) && *final(self) == *old(self)
                },
            },
    {
        let crop = match self.metadata.crop {
            Some(c) => c,
            None => {
                return Ok(());
            },
        };
        if crop.left > self.width || crop.right > self.width - crop.left || crop.top > self.height
            || crop.bottom > self.height - crop.top {
            return Err(Error::CropTooLarge);
        }
        let width = self.width;
        let new_width = width - (crop.left + crop.right);
        let new_height = self.height - (crop.top + crop.bottom);
        let image = copy_window(&self.data, width, self.height, crop);
        let cfa = self.metadata.cfa.shift(crop.left, crop.top);
        self.width = new_width;
        self.height = new_height;
        self.data = image;
        self.metadata.crop = None;
        self.metadata.cfa = cfa;
        Ok(())
    }
}

/// A single-channel image straight from the sensor.
pub type SensorImage<T> = Image<T, BayerRgb>;

/// A three-channel linear RGB image.
pub type RgbImage<T> = Image<T, LinRgb>;

/// A three-channel hue, saturation, value image.
pub type HsvImage<T> = Image<T, Hsv>;

impl<T: Copy> Image<T, LinRgb> {
    /// Channel `channel` of the pixel at `(x, y)`.
    pub fn component(&self, x: usize, y: usize, channel: Color) -> (r: T)
        requires
            self.wf(),
            x < self.width,
            y < self.height,
        ensures
            r == self.sample(x as int, y as int, channel.spec_index() as int),
    {
        proof {
            lemma_site_in_bounds(self.width as int, self.height as int, x as int, y as int);
            assert((y * self.width + x) * 3 + 3 <= self.width * self.height * 3) by (nonlinear_arith)
                requires
                    y * self.width + x + 1 <= self.width * self.height,
            ;
        }
        proof {
            lemma_len_fits(&self.data);
        }
        self.data[(y * self.width + x) * 3 + channel.rgb_index()]
    }

    /// Sets channel `channel` of the pixel with row-major index `index`.
    pub fn set_component(&mut self, index: usize, channel: Color, value: T)
        requires
            old(self).wf(),
            index < old(self).width * old(self).height,
        ensures
            final(self).wf(),
            final(self).width == old(self).width,
            final(self).height == old(self).height,
            final(self).metadata == old(self).metadata,
            final(self).data@ == old(self).data@.update(index * 3 + channel.spec_index(), value),
    {
        proof {
            lemma_len_fits(&self.data);
        }
        self.data.set(index * 3 + channel.rgb_index(), value);
    }
}

/// Copies the window of a single-sample image that lies inside the crop
/// margins, row by row.
fn copy_window<T: Copy>(data: &Vec<T>, width: usize, height: usize, crop: Crop) -> (r: Vec<T>)
    requires
        data@.len() == width * height,
        crop.fits(width as int, height as int),
    ensures
        r@.len() == (width - (crop.left + crop.right)) * (height - (crop.top + crop.bottom)) * 1,
        forall|x: int, y: int|
            0 <= x < width - (crop.left + crop.right) && 0 <= y < height - (crop.top + crop.bottom)
                ==> #[trigger] r@[site(width - (crop.left + crop.right), x, y)] == data@[site(
                width as int,
                x + crop.left,
                y + crop.top,
            )],
{
    proof {
        lemma_len_fits(&data);
    }
    let new_width = width - (crop.left + crop.right);
    let new_height = height - (crop.top + crop.bottom);
    let mut image: Vec<T> = Vec::new();
    let mut row: usize = 0;
    while row < new_height
        invariant
            data@.len() <= usize::MAX,
            data@.len() == width * height,
            crop.fits(width as int, height as int),
            new_width == width - (crop.left + crop.right),
            new_height == height - (crop.top + crop.bottom),
            row <= new_height,
            image@.len() == row * new_width,
            forall|x: int, y: int|
                0 <= x < new_width && 0 <= y < row ==> #[trigger] image@[site(
                    new_width as int,
                    x,
                    y,
                )] == data@[site(width as int, x + crop.left, y + crop.top)],
        decreases new_height - row,
    {
        let src_row = row + crop.top;
        let mut col: usize = 0;
        while col < new_width
            invariant
                data@.len() <= usize::MAX,
                data@.len() == width * height,
                crop.fits(width as int, height as int),
                new_width == width - (crop.left + crop.right),
                new_height == height - (crop.top + crop.bottom),
                row < new_height,
                src_row == row + crop.top,
                col <= new_width,
                image@.len() == row * new_width + col,
                forall|x: int, y: int|
                    0 <= x < new_width && 0 <= y < row ==> #[trigger] image@[site(
                        new_width as int,
                        x,
                        y,
                    )] == data@[site(width as int, x + crop.left, y + crop.top)],
                forall|x: int|
                    0 <= x < col ==> #[trigger] image@[site(new_width as int, x, row as int)]
                        == data@[site(width as int, x + crop.left, row + crop.top)],
            decreases new_width - col,
        {
            proof {
                lemma_site_in_bounds(width as int, height as int, col + crop.left, src_row as int);
                lemma_site_in_bounds(new_width as int, row as int + 1, col as int, row as int);
            }
            let v = data[src_row * width + crop.left + col];
            let ghost before = image@;
            image.push(v);
            col = col + 1;
            proof {
                assert(new_width as int * row as int == row as int * new_width as int)
                    by (nonlinear_arith);
                assert forall|x: int, y: int|
                    0 <= x < new_width && 0 <= y < row implies #[trigger] image@[site(
                        new_width as int,
                        x,
                        y,
                    )] == data@[site(width as int, x + crop.left, y + crop.top)] by {
                    lemma_site_in_bounds(new_width as int, row as int, x, y);
                    assert(image@[site(new_width as int, x, y)] == before[site(
                        new_width as int,
                        x,
                        y,
                    )]);
                }
                assert forall|x: int|
                    0 <= x < col implies #[trigger] image@[site(new_width as int, x, row as int)]
                        == data@[site(width as int, x + crop.left, row + crop.top)] by {
                    if x < col - 1 {
                        lemma_site_in_bounds(new_width as int, row as int + 1, x, row as int);
                        assert(image@[site(new_width as int, x, row as int)] == before[site(
                            new_width as int,
                            x,
                            row as int,
                        )]);
                    }
                }
            }
        }
        row = row + 1;
        proof {
            assert(image@.len() == row * new_width) by (nonlinear_arith)
                requires
                    image@.len() == (row - 1) * new_width + new_width,
            ;
        }
    }
    proof {
        assert(image@.len() == new_width * new_height * 1) by (nonlinear_arith)
            requires
                image@.len() == new_height * new_width,
        ;
    }
    image
}

/// A product of sizes that overflows stays too large after another factor
/// of at least one.
proof fn lemma_product_bound(a: int, b: int, c: int)
    requires
        a >= 0,
        b >= 0,
        c >= 1,
        a * b > usize::MAX,
    ensures
        a * b * c > usize::MAX,
{
    assert(a * b * c >= a * b) by (nonlinear_arith)
        requires
            a * b >= 0,
            c >= 1,
    ;
}

/// The length of a vector fits in `usize`.
pub proof fn lemma_len_fits<T>(v: &Vec<T>)
    ensures
        v@.len() <= usize::MAX,
{
    assert(v.len() == v@.len());
}

/// A site inside the image has an index inside the buffer.
pub proof fn lemma_site_in_bounds(width: int, height: int, x: int, y: int)
    requires
        0 <= x < width,
        0 <= y < height,
    ensures
        0 <= site(width, x, y),
        site(width, x, y) + 1 <= width * height,
        site(width, x, y) + 1 <= site(width, 0, y + 1),
{
    assert(0 <= y * width + x && y * width + x + 1 <= width * height) by (nonlinear_arith)
        requires
            0 <= x < width,
            0 <= y < height,
    ;
    assert((y + 1) * width == y * width + width) by (nonlinear_arith);
}

/// A site before `(x, y)` in row-major order has a smaller index.
pub proof fn lemma_site_order(width: int, px: int, py: int, x: int, y: int)
    requires
        0 <= px < width,
        0 <= x < width,
        0 <= py <= y,
        py < y || px < x,
    ensures
        site(width, px, py) < site(width, x, y),
{
    if py < y {
        assert(py * width + width <= y * width) by (nonlinear_arith)
            requires
                py < y,
                width > 0,
        ;
    }
}

/// Sites of distinct coordinates inside a row have distinct indices.
pub proof fn lemma_site_injective(width: int, x1: int, y1: int, x2: int, y2: int)
    requires
        0 <= x1 < width,
        0 <= x2 < width,
        0 <= y1,
        0 <= y2,
        site(width, x1, y1) == site(width, x2, y2),
    ensures
        x1 == x2,
        y1 == y2,
{
    if y1 < y2 {
        assert(y1 * width + width <= y2 * width) by (nonlinear_arith)
            requires
                y1 < y2,
                width > 0,
        ;
    } else if y2 < y1 {
        assert(y2 * width + width <= y1 * width) by (nonlinear_arith)
            requires
                y2 < y1,
                width > 0,
        ;
    }
}

} // verus!
