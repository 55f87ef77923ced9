use vstd::prelude::*;

use crate::colorspace::BayerRgb;
use crate::image::{lemma_len_fits, lemma_site_in_bounds, lemma_site_order, site, Image};

verus! {

/// The row or column of the source that row or column `o` of a subsampled
/// image comes from: the first two of every eight.
pub open spec fn source_of(o: int) -> int {
    8 * (o / 2) + o % 2
}

proof fn lemma_source_in(o: int, n: int)
    requires
        0 <= o < 2 * (n / 8),
        n >= 0,
    ensures
        0 <= source_of(o) < n,
        source_of(o) % 2 == o % 2,
{
    let q = o / 2;
    let r = o % 2;
    let b = n / 8;
    assert(o == 2 * q + r && 0 <= r < 2);
    assert(n >= 8 * b);
    assert(q < b);
    assert((8 * q + r) % 2 == r) by {
        assert(8 * q + r == 2 * (4 * q) + r);
    }
}

/// A quarter-scale sensor image: of every 8x8 block of sites, the top-left
/// 2x2 block is kept, so the colour filter pattern stays in phase. Sites
/// past the last whole block are dropped.
pub fn subsample<T: Copy>(rimg: Image<T, BayerRgb>) -> (r: Image<T, BayerRgb>)
    requires
        rimg.wf(),
    ensures
        r.wf(),
        r.width == 2 * (rimg.width / 8),
        r.height == 2 * (rimg.height / 8),
        r.metadata == rimg.metadata,
        forall|x: int, y: int|
            0 <= x < r.width && 0 <= y < r.height ==> {
                &&& #[trigger] r.at(x, y) == rimg.at(source_of(x), source_of(y))
                &&& r.metadata.cfa.spec_color_at(x, y) == rimg.metadata.cfa.spec_color_at(
                    source_of(x),
                    source_of(y),
                )
            },
{
    let width = rimg.width;
    let height = rimg.height;
    proof {
        lemma_len_fits(&rimg.data);
    }
    let new_width = (width / 8) * 2;
    let new_height = (height / 8) * 2;
    let mut raw: Vec<T> = Vec::new();
    let mut y: usize = 0;
    while y < new_height
        invariant
            rimg.wf(),
            rimg.width == width,
            rimg.height == height,
            rimg.data@.len() <= usize::MAX,
            new_width == 2 * (width / 8),
            new_height == 2 * (height / 8),
            y <= new_height,
            raw@.len() == site(new_width as int, 0, y as int),
            forall|px: int, py: int|
                0 <= px < new_width && 0 <= py < y ==> #[trigger] raw@[site(
                    new_width as int,
                    px,
                    py,
                )] == rimg.at(source_of(px), source_of(py)),
        decreases new_height - y,
    {
        let sy = (y / 2) * 8 + y % 2;
        let mut x: usize = 0;
        while x < new_width
            invariant
                rimg.wf(),
                rimg.width == width,
                rimg.height == height,
                rimg.data@.len() <= usize::MAX,
                new_width == 2 * (width / 8),
                new_height == 2 * (height / 8),
                y < new_height,
                sy == source_of(y as int),
                x <= new_width,
                raw@.len() == site(new_width as int, x as int, y as int),
                forall|px: int, py: int|
                    (0 <= px < new_width && 0 <= py < y || 0 <= px < x && py == y)
                        ==> #[trigger] raw@[site(new_width as int, px, py)] == rimg.at(
                        source_of(px),
                        source_of(py),
                    ),
            decreases new_width - x,
        {
            let sx = (x / 2) * 8 + x % 2;
            proof {
                lemma_source_in(x as int, width as int);
                lemma_source_in(y as int, height as int);
                lemma_site_in_bounds(width as int, height as int, sx as int, sy as int);
            }
            let v = rimg.data[sy * width + sx];
            let ghost before = raw@;
            raw.push(v);
            proof {
                assert forall|px: int, py: int|
                    (0 <= px < new_width && 0 <= py < y || 0 <= px < x + 1 && py == y)
                        implies #[trigger] raw@[site(new_width as int, px, py)] == rimg.at(
                        source_of(px),
                        source_of(py),
                    ) by {
                    if py < y || px < x {
                        lemma_site_order(
                            new_width as int,
                            px,
                            py,
                            x as int,
                            y as int,
                        );
                        assert(raw@[site(new_width as int, px, py)] == before[site(
                            new_width as int,
                            px,
                            py,
                        )]);
                    }
                }
            }
            x = x + 1;
        }
        y = y + 1;
        proof {
            assert(site(new_width as int, new_width as int, y - 1) == site(
                new_width as int,
                0,
                y as int,
            )) by (nonlinear_arith);
        }
    }
    proof {
        assert(site(new_width as int, 0, new_height as int) == new_width * new_height * 1)
            by (nonlinear_arith);
    }
    let r = Image {
        width: new_width,
        height: new_height,
        metadata: rimg.metadata,
        data: raw,
        phantom: std::marker::PhantomData,
    };
    proof {
        assert forall|x: int, y: int|
            0 <= x < r.width && 0 <= y < r.height implies {
                &&& #[trigger] r.at(x, y) == rimg.at(source_of(x), source_of(y))
                &&& r.metadata.cfa.spec_color_at(x, y) == rimg.metadata.cfa.spec_color_at(
                    source_of(x),
                    source_of(y),
                )
            } by {
            lemma_source_in(x, width as int);
            lemma_source_in(y, height as int);
            crate::cfa::lemma_tile_parity(
                x + r.metadata.cfa.phase_x(),
                y + r.metadata.cfa.phase_y(),
                source_of(x) + r.metadata.cfa.phase_x(),
                source_of(y) + r.metadata.cfa.phase_y(),
            );
        }
    }
    r
}

} // verus!
