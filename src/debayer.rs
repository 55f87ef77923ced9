use vstd::prelude::*;

use crate::cfa::{color_of_index, Color, CFA};
use crate::colorspace::{BayerRgb, LinRgb};
use crate::image::{lemma_len_fits, lemma_site_in_bounds, lemma_site_order, site, Error, Image};
use crate::random::{advance, next_byte, RollingRandom};

verus! {

/// Horizontal step to the `k`-th of the eight neighbours, row by row:
///
/// ```text
/// 0 1 2
/// 3 . 4
/// 5 6 7
/// ```
pub open spec fn offset_dx(k: int) -> int {
    if k == 0 || k == 3 || k == 5 {
        -1
    } else if k == 1 || k == 6 {
        0
    } else {
        1
    }
}

/// Vertical step to the `k`-th of the eight neighbours.
pub open spec fn offset_dy(k: int) -> int {
    if k < 3 {
        -1
    } else if k < 5 {
        0
    } else {
        1
    }
}

/// Which of the eight neighbours lies at the step `(dx, dy)`.
pub open spec fn offset_index(dx: int, dy: int) -> int {
    if dy == -1 {
        dx + 1
    } else if dy == 0 {
        if dx == -1 {
            3
        } else {
            4
        }
    } else {
        dx + 6
    }
}

/// `(x, y)` is a site of the image.
pub open spec fn inside<T: Copy>(img: Image<T, BayerRgb>, x: int, y: int) -> bool {
    0 <= x < img.width && 0 <= y < img.height
}

/// The `k`-th neighbour of `(x, y)` exists and records colour `c`.
pub open spec fn contributes<T: Copy>(img: Image<T, BayerRgb>, x: int, y: int, c: Color, k: int) -> bool {
    &&& inside(img, x + offset_dx(k), y + offset_dy(k))
    &&& img.metadata.cfa.spec_color_at(x + offset_dx(k), y + offset_dy(k)) == c
}

/// Sum of the samples of the first `k` neighbours of `(x, y)` that record `c`.
pub open spec fn neighbor_sum(img: Image<u16, BayerRgb>, x: int, y: int, c: Color, k: int) -> int
    decreases k,
{
    if k <= 0 {
        0
    } else {
        neighbor_sum(img, x, y, c, k - 1) + if contributes(img, x, y, c, k - 1) {
            img.at(x + offset_dx(k - 1), y + offset_dy(k - 1)) as int
        } else {
            0
        }
    }
}

/// How many of the first `k` neighbours of `(x, y)` record `c`.
pub open spec fn neighbor_count<T: Copy>(img: Image<T, BayerRgb>, x: int, y: int, c: Color, k: int) -> int
    decreases k,
{
    if k <= 0 {
        0
    } else {
        neighbor_count(img, x, y, c, k - 1) + if contributes(img, x, y, c, k - 1) {
            1int
        } else {
            0
        }
    }
}

/// Bilinear reconstruction of channel `c` at `(x, y)`: the sample itself on
/// a site of that colour, else the mean, rounded down, of all neighbours of
/// that colour in the 3x3 window that lie inside the image. In the interior
/// that is four neighbours (or two, for red and blue at a green site); on
/// an edge and in a corner the divisor shrinks with the set.
pub open spec fn bilinear_sample(img: Image<u16, BayerRgb>, x: int, y: int, c: Color) -> int {
    if img.metadata.cfa.spec_color_at(x, y) == c {
        img.at(x, y) as int
    } else {
        neighbor_sum(img, x, y, c, 8) / neighbor_count(img, x, y, c, 8)
    }
}

/// `v` is the sample of some neighbour of `(x, y)` that records `c`.
pub open spec fn is_neighbor_value<T: Copy>(img: Image<T, BayerRgb>, x: int, y: int, c: Color, v: T) -> bool {
    exists|k: int|
        0 <= k < 8 && #[trigger] contributes(img, x, y, c, k) && v == img.at(
            x + offset_dx(k),
            y + offset_dy(k),
        )
}

/// The image is large enough for every site to have neighbours of every
/// colour.
pub open spec fn demosaicable<T: Copy>(img: Image<T, BayerRgb>) -> bool {
    img.wf() && img.width >= 2 && img.height >= 2
}

/// Within one 2x2 block every colour that a site lacks is recorded by one
/// of the other three sites.
pub proof fn lemma_block_colors(cfa: CFA, x: int, y: int, ax: int, ay: int, c: Color)
    requires
        ax == 1 || ax == -1,
        ay == 1 || ay == -1,
        cfa.spec_color_at(x, y) != c,
    ensures
        cfa.spec_color_at(x + ax, y) == c || cfa.spec_color_at(x, y + ay) == c
            || cfa.spec_color_at(x + ax, y + ay) == c,
{
    let px = x + cfa.phase_x();
    let py = y + cfa.phase_y();
    assert((px + ax) % 2 != px % 2);
    assert((py + ay) % 2 != py % 2);
}

/// A site of an image of at least 2x2 has a neighbour of every colour it
/// lacks: one that shares its 2x2 block.
pub proof fn lemma_has_neighbor<T: Copy>(img: Image<T, BayerRgb>, x: int, y: int, c: Color) -> (k: int)
    requires
        demosaicable(img),
        inside(img, x, y),
        img.metadata.cfa.spec_color_at(x, y) != c,
    ensures
        0 <= k < 8,
        contributes(img, x, y, c, k),
{
    let ax: int = if x + 1 < img.width {
        1
    } else {
        -1
    };
    let ay: int = if y + 1 < img.height {
        1
    } else {
        -1
    };
    lemma_block_colors(img.metadata.cfa, x, y, ax, ay, c);
    if img.metadata.cfa.spec_color_at(x + ax, y) == c {
        offset_index(ax, 0)
    } else if img.metadata.cfa.spec_color_at(x, y + ay) == c {
        offset_index(0, ay)
    } else {
        offset_index(ax, ay)
    }
}

/// Every neighbour sum of an image whose samples all equal `v` is `v` times
/// the neighbour count.
proof fn lemma_uniform_sum(img: Image<u16, BayerRgb>, x: int, y: int, c: Color, k: int, v: u16)
    requires
        forall|px: int, py: int| inside(img, px, py) ==> #[trigger] img.at(px, py) == v,
    ensures
        neighbor_sum(img, x, y, c, k) == v * neighbor_count(img, x, y, c, k),
    decreases k,
{
    if k > 0 {
        lemma_uniform_sum(img, x, y, c, k - 1, v);
        assert(neighbor_sum(img, x, y, c, k) == v * neighbor_count(img, x, y, c, k))
            by (nonlinear_arith)
            requires
                neighbor_sum(img, x, y, c, k - 1) == v * neighbor_count(img, x, y, c, k - 1),
                neighbor_sum(img, x, y, c, k) == neighbor_sum(img, x, y, c, k - 1) + if contributes(img, x, y, c, k - 1) {
                    v as int
                } else {
                    0
                },
                neighbor_count(img, x, y, c, k) == neighbor_count(img, x, y, c, k - 1) + if contributes(img, x, y, c, k - 1) {
                    1int
                } else {
                    0
                },
        ;
    }
}

/// A sensor image whose samples all hold the same value `v` demosaics
/// bilinearly to an image whose every channel of every pixel is `v`: the
/// interpolation introduces no colour cast.
pub proof fn lemma_uniform_bilinear(img: Image<u16, BayerRgb>, v: u16, x: int, y: int, c: Color)
    requires
        demosaicable(img),
        forall|px: int, py: int| inside(img, px, py) ==> #[trigger] img.at(px, py) == v,
        inside(img, x, y),
    ensures
        bilinear_sample(img, x, y, c) == v,
{
    if img.metadata.cfa.spec_color_at(x, y) != c {
        let j = lemma_has_neighbor(img, x, y, c);
        lemma_count_positive(img, x, y, c, j, 8);
        lemma_uniform_sum(img, x, y, c, 8, v);
        let n = neighbor_count(img, x, y, c, 8);
        assert((v * n) / n == v) by (nonlinear_arith)
            requires
                n >= 1,
        ;
    }
}

/// One neighbour that records `c` among the first `j` makes the count of
/// the first `k >= j` positive.
proof fn lemma_count_positive<T: Copy>(img: Image<T, BayerRgb>, x: int, y: int, c: Color, j: int, k: int)
    requires
        0 <= j < k,
        contributes(img, x, y, c, j),
    ensures
        neighbor_count(img, x, y, c, k) >= 1,
    decreases k,
{
    if k - 1 > j {
        lemma_count_positive(img, x, y, c, j, k - 1);
    }
    lemma_count_nonneg(img, x, y, c, k - 1);
}

proof fn lemma_count_nonneg<T: Copy>(img: Image<T, BayerRgb>, x: int, y: int, c: Color, k: int)
    ensures
        neighbor_count(img, x, y, c, k) >= 0,
    decreases k,
{
    if k > 0 {
        lemma_count_nonneg(img, x, y, c, k - 1);
    }
}

/// The neighbour `k` of `(x, y)`, if it lies inside a `width` by `height` image.
fn neighbor_site(width: usize, height: usize, x: usize, y: usize, k: usize) -> (r: Option<(usize, usize)>)
    requires
        x < width,
        y < height,
        k < 8,
    ensures
        r is Some <==> (0 <= x + offset_dx(k as int) < width && 0 <= y + offset_dy(k as int) < height),
        r matches Some(p) ==> p.0 == x + offset_dx(k as int) && p.1 == y + offset_dy(k as int),
{
    let nx = if k == 0 || k == 3 || k == 5 {
        if x == 0 {
            return None;
        }
        x - 1
    } else if k == 1 || k == 6 {
        x
    } else {
        if x + 1 >= width {
            return None;
        }
        x + 1
    };
    let ny = if k < 3 {
        if y == 0 {
            return None;
        }
        y - 1
    } else if k < 5 {
        y
    } else {
        if y + 1 >= height {
            return None;
        }
        y + 1
    };
    Some((nx, ny))
}

/// Mean, rounded down, of the neighbours of `(x, y)` that record `c`.
fn neighbor_average(img: &Image<u16, BayerRgb>, x: usize, y: usize, c: Color) -> (r: u16)
    requires
        demosaicable(*img),
        x < img.width,
        y < img.height,
        img.metadata.cfa.spec_color_at(x as int, y as int) != c,
    ensures
        r as int == bilinear_sample(*img, x as int, y as int, c),
{
    let width = img.width;
    let height = img.height;
    proof {
        lemma_len_fits(&img.data);
    }
    let mut sum: u32 = 0;
    let mut count: u32 = 0;
    let mut k: usize = 0;
    while k < 8
        invariant
            demosaicable(*img),
            width == img.width,
            height == img.height,
            img.data@.len() <= usize::MAX,
            x < width,
            y < height,
            k <= 8,
            sum as int == neighbor_sum(*img, x as int, y as int, c, k as int),
            count as int == neighbor_count(*img, x as int, y as int, c, k as int),
            count <= k,
            sum <= count * 65535,
        decreases 8 - k,
    {
        match neighbor_site(width, height, x, y, k) {
            Some((nx, ny)) => {
                if img.metadata.cfa.color_at(nx, ny) == c {
                    proof {
                        lemma_site_in_bounds(width as int, height as int, nx as int, ny as int);
                    }
                    let v = img.data[ny * width + nx];
                    sum = sum + v as u32;
                    count = count + 1;
                }
            },
            None => {},
        }
        k = k + 1;
    }
    proof {
        let j = lemma_has_neighbor(*img, x as int, y as int, c);
        lemma_count_positive(*img, x as int, y as int, c, j, 8);
        assert(sum / count <= 65535) by (nonlinear_arith)
            requires
                sum <= count * 65535,
                count >= 1,
        ;
    }
    (sum / count) as u16
}

/// How the missing channels of each site are reconstructed.
#[derive(Copy, Clone, Debug, PartialEq, Eq, Structural)]
pub enum Interpolation {
    /// Missing channels stay zero.
    Passthrough,
    /// Each missing channel copies one neighbour of its colour, chosen at random
    /// where there is a choice.
    NearestNeighbor,
    /// Each missing channel is the mean of all neighbours of its colour.
    Bilinear,
}

/// What a demosaic with `interp` puts in channel `c` of the site `(x, y)`:
/// the site's own sample in its native channel, and in the others what
/// the interpolation prescribes.
pub open spec fn channel_ok(
    interp: Interpolation,
    img: Image<u16, BayerRgb>,
    x: int,
    y: int,
    c: Color,
    v: u16,
) -> bool {
    if img.metadata.cfa.spec_color_at(x, y) == c {
        v == img.at(x, y)
    } else {
        match interp {
            Interpolation::Passthrough => v == 0,
            Interpolation::NearestNeighbor => is_neighbor_value(img, x, y, c, v),
            Interpolation::Bilinear => v as int == bilinear_sample(img, x, y, c),
        }
    }
}

/// Index of channel `c` of the site `(x, y)` in an interleaved RGB buffer.
pub open spec fn rgb_site(width: int, x: int, y: int, c: int) -> int {
    site(width, x, y) * 3 + c
}

/// How reconstructing a missing channel draws on the random source.
#[derive(Copy, Clone, Debug, PartialEq, Eq, Structural)]
pub enum DrawRule {
    /// No draws at all.
    Fixed,
    /// The draws of `nearest_pick`.
    Nearest,
    /// The draw of `window_pick`.
    Window,
}

/// The draws that an interpolation makes.
pub open spec fn rule_of(interp: Interpolation) -> DrawRule {
    match interp {
        Interpolation::NearestNeighbor => DrawRule::Nearest,
        _ => DrawRule::Fixed,
    }
}

/// One step from `pos` towards a neighbouring row or column, and the state
/// of the source after it: at a border the only step there is, without a
/// draw; else one draw, the lower neighbour on an even byte.
pub open spec fn step_spec(r: (Seq<u8>, nat), pos: int, len: int) -> (int, (Seq<u8>, nat)) {
    if pos == 0 {
        (1, r)
    } else if pos == len - 1 {
        (pos - 1, r)
    } else if next_byte(r) % 2 == 0 {
        (pos - 1, advance(r))
    } else {
        (pos + 1, advance(r))
    }
}

/// The site of the 2x2 block spanned by `(x, y)` and `(cx, cy)` that records
/// `c`, and the state of the source after: beside, above or below, or
/// diagonal. Where the sites beside and above or below both record it, one
/// draw picks, the one above or below on an even byte.
pub open spec fn block_spec(
    cfa: CFA,
    r: (Seq<u8>, nat),
    x: int,
    y: int,
    cx: int,
    cy: int,
    c: Color,
) -> ((int, int), (Seq<u8>, nat)) {
    let side = cfa.spec_color_at(cx, y) == c;
    let row = cfa.spec_color_at(x, cy) == c;
    if side && row {
        if next_byte(r) % 2 == 0 {
            ((x, cy), advance(r))
        } else {
            ((cx, y), advance(r))
        }
    } else if side {
        ((cx, y), r)
    } else if row {
        ((x, cy), r)
    } else {
        ((cx, cy), r)
    }
}

/// The neighbour that nearest neighbour reconstruction copies into channel
/// `c` at `(x, y)` from a source in state `r`, and the state after: first
/// the row above or below, then the column to the left or right, then the
/// site of the block that records `c`.
pub open spec fn nearest_pick<T: Copy>(
    img: Image<T, BayerRgb>,
    x: int,
    y: int,
    c: Color,
    r: (Seq<u8>, nat),
) -> ((int, int), (Seq<u8>, nat)) {
    let v = step_spec(r, y, img.height as int);
    let h = step_spec(v.1, x, img.width as int);
    block_spec(img.metadata.cfa, h.1, x, y, h.0, v.0, c)
}

/// The neighbours among the first `k` of `(x, y)` that record `c`, in
/// window order.
pub open spec fn window_options<T: Copy>(img: Image<T, BayerRgb>, x: int, y: int, c: Color, k: int) -> Seq<int>
    decreases k,
{
    if k <= 0 {
        Seq::empty()
    } else if contributes(img, x, y, c, k - 1) {
        window_options(img, x, y, c, k - 1).push(k - 1)
    } else {
        window_options(img, x, y, c, k - 1)
    }
}

/// The neighbour that the window pick copies into channel `c` at `(x, y)`
/// from a source in state `r`, and the state after: the option at the next
/// byte modulo the number of options.
pub open spec fn window_pick<T: Copy>(
    img: Image<T, BayerRgb>,
    x: int,
    y: int,
    c: Color,
    r: (Seq<u8>, nat),
) -> ((int, int), (Seq<u8>, nat)) {
    let opts = window_options(img, x, y, c, 8);
    let k = opts[next_byte(r) as int % opts.len() as int];
    ((x + offset_dx(k), y + offset_dy(k)), advance(r))
}

/// The site copied into channel `c` at `(x, y)` under `rule`, and the state
/// of the source after. The native channel draws nothing.
pub open spec fn pick<T: Copy>(
    rule: DrawRule,
    img: Image<T, BayerRgb>,
    x: int,
    y: int,
    c: Color,
    r: (Seq<u8>, nat),
) -> ((int, int), (Seq<u8>, nat)) {
    if img.metadata.cfa.spec_color_at(x, y) == c {
        ((x, y), r)
    } else {
        match rule {
            DrawRule::Fixed => ((x, y), r),
            DrawRule::Nearest => nearest_pick(img, x, y, c, r),
            DrawRule::Window => window_pick(img, x, y, c, r),
        }
    }
}

/// The state of the source after the first `c` channels of `(x, y)`, in the
/// order red, green, blue, from state `r`.
pub open spec fn state_within<T: Copy>(
    rule: DrawRule,
    img: Image<T, BayerRgb>,
    x: int,
    y: int,
    c: int,
    r: (Seq<u8>, nat),
) -> (Seq<u8>, nat)
    decreases c,
{
    if c <= 0 {
        r
    } else {
        pick(rule, img, x, y, color_of_index((c - 1) as nat), state_within(rule, img, x, y, c - 1, r)).1
    }
}

/// The state of the source when the demosaic reaches the site `(x, y)`,
/// having started in `r0` and gone through the sites before it in row-major
/// order.
pub open spec fn state_before<T: Copy>(
    rule: DrawRule,
    img: Image<T, BayerRgb>,
    x: int,
    y: int,
    r0: (Seq<u8>, nat),
) -> (Seq<u8>, nat)
    decreases y, x,
{
    if (y <= 0 && x <= 0) || img.width == 0 {
        r0
    } else if x <= 0 {
        state_within(rule, img, img.width - 1, y - 1, 3, state_before(rule, img, img.width - 1, y - 1, r0))
    } else {
        state_within(rule, img, x - 1, y, 3, state_before(rule, img, x - 1, y, r0))
    }
}

/// The state of the source when the demosaic reaches channel `c` of `(x, y)`.
pub open spec fn state_for<T: Copy>(
    rule: DrawRule,
    img: Image<T, BayerRgb>,
    x: int,
    y: int,
    c: int,
    r0: (Seq<u8>, nat),
) -> (Seq<u8>, nat) {
    state_within(rule, img, x, y, c, state_before(rule, img, x, y, r0))
}

/// Channel `c` of `(x, y)` as `interp` reconstructs it from a source in
/// state `r`.
pub open spec fn debayer_value(
    interp: Interpolation,
    img: Image<u16, BayerRgb>,
    x: int,
    y: int,
    c: Color,
    r: (Seq<u8>, nat),
) -> u16 {
    if img.metadata.cfa.spec_color_at(x, y) == c {
        img.at(x, y)
    } else {
        match interp {
            Interpolation::Passthrough => 0,
            Interpolation::Bilinear => bilinear_sample(img, x, y, c) as u16,
            Interpolation::NearestNeighbor => {
                let p = nearest_pick(img, x, y, c, r).0;
                img.at(p.0, p.1)
            },
        }
    }
}

/// Channel `c` of `(x, y)` as the window pick reconstructs it from a source
/// in state `r`.
pub open spec fn window_value_at<T: Copy>(
    img: Image<T, BayerRgb>,
    x: int,
    y: int,
    c: Color,
    r: (Seq<u8>, nat),
) -> T {
    let p = pick(DrawRule::Window, img, x, y, c, r).0;
    img.at(p.0, p.1)
}

/// The options gathered up to `k` are as many as the neighbours counted up
/// to `k`.
proof fn lemma_window_options<T: Copy>(img: Image<T, BayerRgb>, x: int, y: int, c: Color, k: int)
    ensures
        window_options(img, x, y, c, k).len() == neighbor_count(img, x, y, c, k),
    decreases k,
{
    if k > 0 {
        lemma_window_options(img, x, y, c, k - 1);
    }
}

/// One step from `pos` towards a neighbouring row or column: the only one
/// there is at a border, else one drawn at random, the lower one on `true`.
fn step_aside(rr: &mut RollingRandom, pos: usize, len: usize) -> (r: usize)
    requires
        len >= 2,
        pos < len,
    ensures
        r < len,
        r == pos + 1 || r + 1 == pos,
        (r as int, final(rr)@) == step_spec(old(rr)@, pos as int, len as int),
{
    if pos == 0 {
        1
    } else if pos == len - 1 {
        pos - 1
    } else if rr.random_bool() {
        pos - 1
    } else {
        pos + 1
    }
}

/// The site of the 2x2 block spanned by `(x, y)` and `(cx, cy)` that records
/// `c`, as `block_spec` describes.
fn block_site(cfa: &CFA, rr: &mut RollingRandom, x: usize, y: usize, cx: usize, cy: usize, c: Color) -> (r: (usize, usize))
    requires
        cx == x + 1 || cx + 1 == x,
        cy == y + 1 || cy + 1 == y,
        cfa.spec_color_at(x as int, y as int) != c,
    ensures
        r == (cx, y) || r == (x, cy) || r == (cx, cy),
        cfa.spec_color_at(r.0 as int, r.1 as int) == c,
        ((r.0 as int, r.1 as int), final(rr)@) == block_spec(
            *cfa,
            old(rr)@,
            x as int,
            y as int,
            cx as int,
            cy as int,
            c,
        ),
{
    proof {
        lemma_block_colors(*cfa, x as int, y as int, cx - x, cy - y, c);
    }
    let side = cfa.color_at(cx, y) == c;
    let row = cfa.color_at(x, cy) == c;
    if side && row {
        if rr.random_bool() {
            (x, cy)
        } else {
            (cx, y)
        }
    } else if side {
        (cx, y)
    } else if row {
        (x, cy)
    } else {
        (cx, cy)
    }
}

/// Nearest neighbour reconstruction of channel `c` at `(x, y)`. One random
/// choice picks the row above or below, another the column to the left or
/// right; at a border the only direction there is is taken without drawing.
/// The colour then sits on the chosen side, the chosen row, or the chosen
/// diagonal.
fn nearest_sample(img: &Image<u16, BayerRgb>, rr: &mut RollingRandom, x: usize, y: usize, c: Color) -> (r: u16)
    requires
        demosaicable(*img),
        x < img.width,
        y < img.height,
        img.metadata.cfa.spec_color_at(x as int, y as int) != c,
    ensures
        is_neighbor_value(*img, x as int, y as int, c, r),
        r == img.at(
            nearest_pick(*img, x as int, y as int, c, old(rr)@).0.0,
            nearest_pick(*img, x as int, y as int, c, old(rr)@).0.1,
        ),
        final(rr)@ == nearest_pick(*img, x as int, y as int, c, old(rr)@).1,
{
    let width = img.width;
    let height = img.height;
    let cy = step_aside(rr, y, height);
    let cx = step_aside(rr, x, width);
    let (nx, ny) = block_site(&img.metadata.cfa, rr, x, y, cx, cy, c);
    proof {
        lemma_site_in_bounds(width as int, height as int, nx as int, ny as int);
    }
    proof {
        lemma_len_fits(&img.data);
    }
    let v = img.data[ny * width + nx];
    proof {
        let k = offset_index(nx - x, ny - y);
        assert(offset_dx(k) == nx - x && offset_dy(k) == ny - y);
        assert(contributes(*img, x as int, y as int, c, k));
        assert(v == img.at(x + offset_dx(k), y + offset_dy(k)));
    }
    v
}

/// Reconstruction of channel `c` at `(x, y)` from a neighbour of its colour
/// anywhere in the 3x3 window: the neighbours of that colour are listed in
/// window order, and one byte of the source, modulo their number, picks one.
fn window_sample<T: Copy>(img: &Image<T, BayerRgb>, rr: &mut RollingRandom, x: usize, y: usize, c: Color) -> (r: T)
    requires
        demosaicable(*img),
        x < img.width,
        y < img.height,
        img.metadata.cfa.spec_color_at(x as int, y as int) != c,
    ensures
        is_neighbor_value(*img, x as int, y as int, c, r),
        r == img.at(
            window_pick(*img, x as int, y as int, c, old(rr)@).0.0,
            window_pick(*img, x as int, y as int, c, old(rr)@).0.1,
        ),
        final(rr)@ == window_pick(*img, x as int, y as int, c, old(rr)@).1,
{
    let width = img.width;
    let height = img.height;
    let mut options: Vec<usize> = Vec::new();
    let mut k: usize = 0;
    while k < 8
        invariant
            demosaicable(*img),
            width == img.width,
            height == img.height,
            x < width,
            y < height,
            k <= 8,
            options@.len() == window_options(*img, x as int, y as int, c, k as int).len(),
            forall|i: int|
                0 <= i < options@.len() ==> #[trigger] options@[i] as int == window_options(
                    *img,
                    x as int,
                    y as int,
                    c,
                    k as int,
                )[i],
            forall|i: int|
                0 <= i < options@.len() ==> #[trigger] options@[i] < 8 && contributes(
                    *img,
                    x as int,
                    y as int,
                    c,
                    options@[i] as int,
                ),
        decreases 8 - k,
    {
        match neighbor_site(width, height, x, y, k) {
            Some((nx, ny)) => {
                if img.metadata.cfa.color_at(nx, ny) == c {
                    options.push(k);
                }
            },
            None => {},
        }
        k = k + 1;
    }
    proof {
        let j = lemma_has_neighbor(*img, x as int, y as int, c);
        lemma_count_positive(*img, x as int, y as int, c, j, 8);
        lemma_window_options(*img, x as int, y as int, c, 8);
    }
    let byte = rr.random_u8();
    let pick = byte as usize % options.len();
    let chosen = options[pick];
    proof {
        assert(contributes(*img, x as int, y as int, c, chosen as int));
    }
    let (nx, ny) = neighbor_step(x, y, chosen);
    proof {
        lemma_site_in_bounds(width as int, height as int, nx as int, ny as int);
        lemma_len_fits(&img.data);
    }
    img.data[ny * width + nx]
}

/// The neighbour `k` of `(x, y)`, which must not lie before the first row
/// or column.
fn neighbor_step(x: usize, y: usize, k: usize) -> (r: (usize, usize))
    requires
        k < 8,
        0 <= x + offset_dx(k as int) < usize::MAX,
        0 <= y + offset_dy(k as int) < usize::MAX,
    ensures
        r.0 == x + offset_dx(k as int),
        r.1 == y + offset_dy(k as int),
{
    let nx = if k == 0 || k == 3 || k == 5 {
        x - 1
    } else if k == 1 || k == 6 {
        x
    } else {
        x + 1
    };
    let ny = if k < 3 {
        y - 1
    } else if k < 5 {
        y
    } else {
        y + 1
    };
    (nx, ny)
}

/// Channel `c` of the site `(x, y)` as `interp` reconstructs it.
fn channel_value(
    img: &Image<u16, BayerRgb>,
    rr: &mut RollingRandom,
    interp: Interpolation,
    x: usize,
    y: usize,
    c: Color,
) -> (r: u16)
    requires
        img.wf(),
        interp != Interpolation::Passthrough ==> demosaicable(*img),
        x < img.width,
        y < img.height,
    ensures
        channel_ok(interp, *img, x as int, y as int, c, r),
        r == debayer_value(interp, *img, x as int, y as int, c, old(rr)@),
        final(rr)@ == pick(rule_of(interp), *img, x as int, y as int, c, old(rr)@).1,
{
    if img.metadata.cfa.color_at(x, y) == c {
        proof {
            lemma_site_in_bounds(img.width as int, img.height as int, x as int, y as int);
            lemma_len_fits(&img.data);
        }
        img.data[y * img.width + x]
    } else {
        match interp {
            Interpolation::Passthrough => 0,
            Interpolation::NearestNeighbor => nearest_sample(img, rr, x, y, c),
            Interpolation::Bilinear => neighbor_average(img, x, y, c),
        }
    }
}

/// The interleaved RGB buffer that `interp` reconstructs, pixel by pixel in
/// row-major order, each pixel's channels in the order red, green, blue.
#[verifier::rlimit(40)]
fn demosaic(img: &Image<u16, BayerRgb>, rr: &mut RollingRandom, interp: Interpolation) -> (out: Vec<u16>)
    requires
        img.wf(),
        interp != Interpolation::Passthrough ==> demosaicable(*img),
    ensures
        out@.len() == img.width * img.height * 3,
        forall|x: int, y: int, c: int|
            0 <= x < img.width && 0 <= y < img.height && 0 <= c < 3 ==> {
                &&& channel_ok(
                    interp,
                    *img,
                    x,
                    y,
                    color_of_index(c as nat),
                    #[trigger] out@[rgb_site(img.width as int, x, y, c)],
                )
                &&& out@[rgb_site(img.width as int, x, y, c)] == debayer_value(
                    interp,
                    *img,
                    x,
                    y,
                    color_of_index(c as nat),
                    state_for(rule_of(interp), *img, x, y, c, old(rr)@),
                )
            },
        final(rr)@ == state_before(rule_of(interp), *img, 0, img.height as int, old(rr)@),
{
    let ghost r0 = rr@;
    let ghost rule = rule_of(interp);
    let width = img.width;
    let height = img.height;
    let mut out: Vec<u16> = Vec::new();
    let mut y: usize = 0;
    while y < height
        invariant
            img.wf(),
            interp != Interpolation::Passthrough ==> demosaicable(*img),
            rule == rule_of(interp),
            width == img.width,
            height == img.height,
            y <= height,
            out@.len() == site(width as int, 0, y as int) * 3,
            rr@ == state_before(rule, *img, 0, y as int, r0),
            forall|px: int, py: int, c: int|
                0 <= px < width && 0 <= py < y && 0 <= c < 3 ==> {
                    &&& channel_ok(
                        interp,
                        *img,
                        px,
                        py,
                        color_of_index(c as nat),
                        #[trigger] out@[rgb_site(width as int, px, py, c)],
                    )
                    &&& out@[rgb_site(width as int, px, py, c)] == debayer_value(
                        interp,
                        *img,
                        px,
                        py,
                        color_of_index(c as nat),
                        state_for(rule, *img, px, py, c, r0),
                    )
                },
        decreases height - y,
    {
        let mut x: usize = 0;
        while x < width
            invariant
                img.wf(),
                interp != Interpolation::Passthrough ==> demosaicable(*img),
                rule == rule_of(interp),
                width == img.width,
                height == img.height,
                y < height,
                x <= width,
                out@.len() == site(width as int, x as int, y as int) * 3,
                rr@ == state_before(rule, *img, x as int, y as int, r0),
                forall|px: int, py: int, c: int|
                    (0 <= px < width && 0 <= py < y || 0 <= px < x && py == y) && 0 <= c < 3 ==> {
                        &&& channel_ok(
                            interp,
                            *img,
                            px,
                            py,
                            color_of_index(c as nat),
                            #[trigger] out@[rgb_site(width as int, px, py, c)],
                        )
                        &&& out@[rgb_site(width as int, px, py, c)] == debayer_value(
                            interp,
                            *img,
                            px,
                            py,
                            color_of_index(c as nat),
                            state_for(rule, *img, px, py, c, r0),
                        )
                    },
            decreases width - x,
        {
            let ghost s0 = rr@;
            assert(state_within(rule, *img, x as int, y as int, 0, s0) == s0);
            let red = channel_value(img, rr, interp, x, y, Color::Red);
            assert(rr@ == state_within(rule, *img, x as int, y as int, 1, s0));
            let green = channel_value(img, rr, interp, x, y, Color::Green);
            assert(rr@ == state_within(rule, *img, x as int, y as int, 2, s0));
            let blue = channel_value(img, rr, interp, x, y, Color::Blue);
            assert(rr@ == state_within(rule, *img, x as int, y as int, 3, s0));
            assert(state_for(rule, *img, x as int, y as int, 0, r0) == s0);
            assert(state_for(rule, *img, x as int, y as int, 1, r0) == state_within(rule, *img, x as int, y as int, 1, s0));
            assert(state_for(rule, *img, x as int, y as int, 2, r0) == state_within(rule, *img, x as int, y as int, 2, s0));
            let ghost before = out@;
            out.push(red);
            out.push(green);
            out.push(blue);
            proof {
                assert forall|px: int, py: int, c: int|
                    (0 <= px < width && 0 <= py < y || 0 <= px < x + 1 && py == y) && 0 <= c < 3
                        implies {
                    &&& channel_ok(
                        interp,
                        *img,
                        px,
                        py,
                        color_of_index(c as nat),
                        #[trigger] out@[rgb_site(width as int, px, py, c)],
                    )
                    &&& out@[rgb_site(width as int, px, py, c)] == debayer_value(
                        interp,
                        *img,
                        px,
                        py,
                        color_of_index(c as nat),
                        state_for(rule, *img, px, py, c, r0),
                    )
                } by {
                    if py < y || px < x {
                        lemma_site_order(width as int, px, py, x as int, y as int);
                        assert(out@[rgb_site(width as int, px, py, c)] == before[rgb_site(
                            width as int,
                            px,
                            py,
                            c,
                        )]);
                    }
                }
            }
            x = x + 1;
            assert(rr@ == state_before(rule, *img, x as int, y as int, r0));
        }
        y = y + 1;
        proof {
            assert(site(width as int, width as int, y - 1) == site(width as int, 0, y as int))
                by (nonlinear_arith);
            assert(state_before(rule, *img, width as int, y - 1, r0) == state_before(
                rule,
                *img,
                0,
                y as int,
                r0,
            ));
        }
    }
    proof {
        assert(site(width as int, 0, height as int) * 3 == width * height * 3) by (nonlinear_arith);
    }
    out
}

/// A demosaic in progress: a sensor image to reconstruct.
pub struct Debayer {
    img: Image<u16, BayerRgb>,
}

impl Debayer {
    #[verifier::type_invariant]
    spec fn inv(self) -> bool {
        self.img.wf()
    }

    /// The sensor image being demosaiced.
    pub closed spec fn sensor(&self) -> Image<u16, BayerRgb> {
        self.img
    }

    /// Prepares to demosaic `img`.
    pub fn new(img: Image<u16, BayerRgb>) -> (r: Self)
        requires
            img.wf(),
        ensures
            r.sensor() == img,
    {
        Debayer { img }
    }

    /// Reconstructs a linear RGB image of the same size and metadata: every
    /// site keeps its own sample in its native channel, and the two others
    /// are filled as `interpolation` says, drawing on `rr` where it chooses
    /// at random. `Passthrough` reads no neighbours and always succeeds; the
    /// other two need at least two rows and two columns, so that every site
    /// has neighbours of each colour, and report `TooSmall` otherwise, with
    /// `rr` untouched.
    pub fn interpolate_with(self, interpolation: Interpolation, rr: &mut RollingRandom) -> (r: Result<
        Image<u16, LinRgb>,
        Error,
    >)
        ensures
            (interpolation == Interpolation::Passthrough || (self.sensor().width >= 2
                && self.sensor().height >= 2)) <==> r is Ok,
            r matches Err(e) ==> e == Error::TooSmall && final(rr)@ == old(rr)@,
            r matches Ok(out) ==> {
                &&& out.wf()
                &&& out.width == self.sensor().width
                &&& out.height == self.sensor().height
                &&& out.metadata == self.sensor().metadata
                &&& forall|x: int, y: int, c: int|
                    0 <= x < out.width && 0 <= y < out.height && 0 <= c < 3 ==> {
                        &&& channel_ok(
                            interpolation,
                            self.sensor(),
                            x,
                            y,
                            color_of_index(c as nat),
                            #[trigger] out.sample(x, y, c),
                        )
                        &&& out.sample(x, y, c) == debayer_value(
                            interpolation,
                            self.sensor(),
                            x,
                            y,
                            color_of_index(c as nat),
                            state_for(rule_of(interpolation), self.sensor(), x, y, c, old(rr)@),
                        )
                    }
                &&& final(rr)@ == state_before(
                    rule_of(interpolation),
                    self.sensor(),
                    0,
                    out.height as int,
                    old(rr)@,
                )
            },
    {
        proof {
            use_type_invariant(&self);
        }
        if interpolation != Interpolation::Passthrough && (self.img.width < 2 || self.img.height < 2) {
            return Err(Error::TooSmall);
        }
        let data = demosaic(&self.img, rr, interpolation);
        let img = self.img;
        let r = Image {
            width: img.width,
            height: img.height,
            metadata: img.metadata,
            data,
            phantom: std::marker::PhantomData,
        };
        proof {
            assert forall|x: int, y: int, c: int|
                0 <= x < r.width && 0 <= y < r.height && 0 <= c < 3 implies r.sample(x, y, c)
                == data@[rgb_site(img.width as int, x, y, c)] by {}
        }
        Ok(r)
    }

    /// `interpolate_with` on a fresh source of random bytes.
    pub fn interpolate(self, interpolation: Interpolation) -> (r: Result<Image<u16, LinRgb>, Error>)
        ensures
            (interpolation == Interpolation::Passthrough || (self.sensor().width >= 2
                && self.sensor().height >= 2)) <==> r is Ok,
            r matches Err(e) ==> e == Error::TooSmall,
            r matches Ok(out) ==> {
                &&& out.wf()
                &&& out.width == self.sensor().width
                &&& out.height == self.sensor().height
                &&& out.metadata == self.sensor().metadata
                &&& forall|x: int, y: int, c: int|
                    0 <= x < out.width && 0 <= y < out.height && 0 <= c < 3 ==> channel_ok(
                        interpolation,
                        self.sensor(),
                        x,
                        y,
                        color_of_index(c as nat),
                        #[trigger] out.sample(x, y, c),
                    )
            },
    {
        let mut rr = RollingRandom::new();
        self.interpolate_with(interpolation, &mut rr)
    }
}

/// What the random window pick puts in channel `c` of the site `(x, y)`:
/// the site's own sample in its native channel, else the sample of a
/// neighbour of colour `c`.
pub open spec fn window_ok<T: Copy>(img: Image<T, BayerRgb>, x: int, y: int, c: Color, v: T) -> bool {
    if img.metadata.cfa.spec_color_at(x, y) == c {
        v == img.at(x, y)
    } else {
        is_neighbor_value(img, x, y, c, v)
    }
}

/// Channel `c` of the site `(x, y)` under the random window pick.
fn window_value<T: Copy>(img: &Image<T, BayerRgb>, rr: &mut RollingRandom, x: usize, y: usize, c: Color) -> (r: T)
    requires
        demosaicable(*img),
        x < img.width,
        y < img.height,
    ensures
        window_ok(*img, x as int, y as int, c, r),
        r == window_value_at(*img, x as int, y as int, c, old(rr)@),
        final(rr)@ == pick(DrawRule::Window, *img, x as int, y as int, c, old(rr)@).1,
{
    if img.metadata.cfa.color_at(x, y) == c {
        proof {
            lemma_site_in_bounds(img.width as int, img.height as int, x as int, y as int);
            lemma_len_fits(&img.data);
        }
        img.data[y * img.width + x]
    } else {
        window_sample(img, rr, x, y, c)
    }
}

/// The interleaved RGB buffer of the random window pick, pixel by pixel in
/// row-major order, each pixel's channels in the order red, green, blue.
#[verifier::rlimit(40)]
fn demosaic_window<T: Copy>(img: &Image<T, BayerRgb>, rr: &mut RollingRandom) -> (out: Vec<T>)
    requires
        demosaicable(*img),
    ensures
        out@.len() == img.width * img.height * 3,
        forall|x: int, y: int, c: int|
            0 <= x < img.width && 0 <= y < img.height && 0 <= c < 3 ==> {
                &&& window_ok(
                    *img,
                    x,
                    y,
                    color_of_index(c as nat),
                    #[trigger] out@[rgb_site(img.width as int, x, y, c)],
                )
                &&& out@[rgb_site(img.width as int, x, y, c)] == window_value_at(
                    *img,
                    x,
                    y,
                    color_of_index(c as nat),
                    state_for(DrawRule::Window, *img, x, y, c, old(rr)@),
                )
            },
        final(rr)@ == state_before(DrawRule::Window, *img, 0, img.height as int, old(rr)@),
{
    let ghost r0 = rr@;
    let ghost rule = DrawRule::Window;
    let width = img.width;
    let height = img.height;
    let mut out: Vec<T> = Vec::new();
    let mut y: usize = 0;
    while y < height
        invariant
            demosaicable(*img),
            rule == DrawRule::Window,
            width == img.width,
            height == img.height,
            y <= height,
            out@.len() == site(width as int, 0, y as int) * 3,
            rr@ == state_before(rule, *img, 0, y as int, r0),
            forall|px: int, py: int, c: int|
                0 <= px < width && 0 <= py < y && 0 <= c < 3 ==> {
                    &&& window_ok(
                        *img,
                        px,
                        py,
                        color_of_index(c as nat),
                        #[trigger] out@[rgb_site(width as int, px, py, c)],
                    )
                    &&& out@[rgb_site(width as int, px, py, c)] == window_value_at(
                        *img,
                        px,
                        py,
                        color_of_index(c as nat),
                        state_for(rule, *img, px, py, c, r0),
                    )
                },
        decreases height - y,
    {
        let mut x: usize = 0;
        while x < width
            invariant
                demosaicable(*img),
                rule == DrawRule::Window,
                width == img.width,
                height == img.height,
                y < height,
                x <= width,
                out@.len() == site(width as int, x as int, y as int) * 3,
                rr@ == state_before(rule, *img, x as int, y as int, r0),
                forall|px: int, py: int, c: int|
                    (0 <= px < width && 0 <= py < y || 0 <= px < x && py == y) && 0 <= c < 3 ==> {
                        &&& window_ok(
                            *img,
                            px,
                            py,
                            color_of_index(c as nat),
                            #[trigger] out@[rgb_site(width as int, px, py, c)],
                        )
                        &&& out@[rgb_site(width as int, px, py, c)] == window_value_at(
                            *img,
                            px,
                            py,
                            color_of_index(c as nat),
                            state_for(rule, *img, px, py, c, r0),
                        )
                    },
            decreases width - x,
        {
            let ghost s0 = rr@;
            assert(state_within(rule, *img, x as int, y as int, 0, s0) == s0);
            let red = window_value(img, rr, x, y, Color::Red);
            assert(rr@ == state_within(rule, *img, x as int, y as int, 1, s0));
            let green = window_value(img, rr, x, y, Color::Green);
            assert(rr@ == state_within(rule, *img, x as int, y as int, 2, s0));
            let blue = window_value(img, rr, x, y, Color::Blue);
            assert(rr@ == state_within(rule, *img, x as int, y as int, 3, s0));
            assert(state_for(rule, *img, x as int, y as int, 0, r0) == s0);
            assert(state_for(rule, *img, x as int, y as int, 1, r0) == state_within(rule, *img, x as int, y as int, 1, s0));
            assert(state_for(rule, *img, x as int, y as int, 2, r0) == state_within(rule, *img, x as int, y as int, 2, s0));
            let ghost before = out@;
            out.push(red);
            out.push(green);
            out.push(blue);
            proof {
                assert forall|px: int, py: int, c: int|
                    (0 <= px < width && 0 <= py < y || 0 <= px < x + 1 && py == y) && 0 <= c < 3
                        implies {
                    &&& window_ok(
                        *img,
                        px,
                        py,
                        color_of_index(c as nat),
                        #[trigger] out@[rgb_site(width as int, px, py, c)],
                    )
                    &&& out@[rgb_site(width as int, px, py, c)] == window_value_at(
                        *img,
                        px,
                        py,
                        color_of_index(c as nat),
                        state_for(rule, *img, px, py, c, r0),
                    )
                } by {
                    if py < y || px < x {
                        lemma_site_order(width as int, px, py, x as int, y as int);
                        assert(out@[rgb_site(width as int, px, py, c)] == before[rgb_site(
                            width as int,
                            px,
                            py,
                            c,
                        )]);
                    }
                }
            }
            x = x + 1;
            assert(rr@ == state_before(rule, *img, x as int, y as int, r0));
        }
        y = y + 1;
        proof {
            assert(site(width as int, width as int, y - 1) == site(width as int, 0, y as int))
                by (nonlinear_arith);
            assert(state_before(rule, *img, width as int, y - 1, r0) == state_before(
                rule,
                *img,
                0,
                y as int,
                r0,
            ));
        }
    }
    proof {
        assert(site(width as int, 0, height as int) * 3 == width * height * 3) by (nonlinear_arith);
    }
    out
}

impl<T: Copy> Image<T, BayerRgb> {
    /// Demosaics by copying, for each missing channel, one neighbour of its
    /// colour from the 3x3 window: the neighbours of that colour in window
    /// order, the one at the next byte of `rr` modulo their number. Needs at
    /// least two rows and two columns; otherwise reports `TooSmall` with `rr`
    /// untouched.
    pub fn debayer_with(self, rr: &mut RollingRandom) -> (r: Result<Image<T, LinRgb>, Error>)
        requires
            self.wf(),
        ensures
            (self.width >= 2 && self.height >= 2) <==> r is Ok,
            r matches Err(e) ==> e == Error::TooSmall && final(rr)@ == old(rr)@,
            r matches Ok(out) ==> {
                &&& out.wf()
                &&& out.width == self.width
                &&& out.height == self.height
                &&& out.metadata == self.metadata
                &&& forall|x: int, y: int, c: int|
                    0 <= x < out.width && 0 <= y < out.height && 0 <= c < 3 ==> {
                        &&& window_ok(
                            self,
                            x,
                            y,
                            color_of_index(c as nat),
                            #[trigger] out.sample(x, y, c),
                        )
                        &&& out.sample(x, y, c) == window_value_at(
                            self,
                            x,
                            y,
                            color_of_index(c as nat),
                            state_for(DrawRule::Window, self, x, y, c, old(rr)@),
                        )
                    }
                &&& final(rr)@ == state_before(DrawRule::Window, self, 0, out.height as int, old(rr)@)
            },
    {
        if self.width < 2 || self.height < 2 {
            return Err(Error::TooSmall);
        }
        let data = demosaic_window(&self, rr);
        let r = Image {
            width: self.width,
            height: self.height,
            metadata: self.metadata,
            data,
            phantom: std::marker::PhantomData,
        };
        proof {
            assert forall|x: int, y: int, c: int|
                0 <= x < r.width && 0 <= y < r.height && 0 <= c < 3 implies r.sample(x, y, c)
                == data@[rgb_site(self.width as int, x, y, c)] by {}
        }
        Ok(r)
    }

    /// `debayer_with` on a fresh source of random bytes.
    pub fn debayer(self) -> (r: Result<Image<T, LinRgb>, Error>)
        requires
            self.wf(),
        ensures
            (self.width >= 2 && self.height >= 2) <==> r is Ok,
            r matches Err(e) ==> e == Error::TooSmall,
            r matches Ok(out) ==> {
                &&& out.wf()
                &&& out.width == self.width
                &&& out.height == self.height
                &&& out.metadata == self.metadata
                &&& forall|x: int, y: int, c: int|
                    0 <= x < out.width && 0 <= y < out.height && 0 <= c < 3 ==> window_ok(
                        self,
                        x,
                        y,
                        color_of_index(c as nat),
                        #[trigger] out.sample(x, y, c),
                    )
            },
    {
        let mut rr = RollingRandom::new();
        self.debayer_with(&mut rr)
    }
}

} // verus!
