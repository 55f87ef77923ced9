use vstd::prelude::*;

use crate::cfa::Color;
use crate::colorspace::BayerRgb;
use crate::image::{lemma_len_fits, lemma_site_in_bounds, site, Image};

verus! {

/// The level of channel `c` in a red, green, blue triple.
pub open spec fn level_of(levels: (u16, u16, u16), c: Color) -> u16 {
    match c {
        Color::Red => levels.0,
        Color::Green => levels.1,
        Color::Blue => levels.2,
    }
}

/// `light` less `black`, or zero where the black level is higher.
pub open spec fn clamp_sub(light: u16, black: u16) -> u16 {
    if light < black {
        0
    } else {
        (light - black) as u16
    }
}

impl Image<u16, BayerRgb> {
    /// The black levels that `black_levels` subtracts: the given ones, or
    /// else the camera's from the metadata.
    pub open spec fn chosen_levels(&self, subtract: Option<(u16, u16, u16)>) -> (u16, u16, u16) {
        match subtract {
            Some(t) => t,
            None => (
                self.metadata.blacklevels[0],
                self.metadata.blacklevels[1],
                self.metadata.blacklevels[2],
            ),
        }
    }

    /// Subtracts from every sample the black level of its native channel,
    /// never going below zero. With `None` the camera's black levels are used.
    pub fn black_levels(&mut self, subtract: Option<(u16, u16, u16)>)
        requires
            old(self).wf(),
        ensures
            final(self).wf(),
            final(self).width == old(self).width,
            final(self).height == old(self).height,
            final(self).metadata == old(self).metadata,
            forall|x: int, y: int|
                0 <= x < final(self).width && 0 <= y < final(self).height
                    ==> #[trigger] final(self).at(x, y) == clamp_sub(
                    old(self).at(x, y),
                    level_of(
                        old(self).chosen_levels(subtract),
                        old(self).metadata.cfa.spec_color_at(x, y),
                    ),
                ),
    {
        let levels = match subtract {
            Some(t) => t,
            None => (
                self.metadata.blacklevels[0],
                self.metadata.blacklevels[1],
                self.metadata.blacklevels[2],
            ),
        };
        let width = self.width;
        let height = self.height;
        proof {
            lemma_len_fits(&self.data);
        }
        let ghost before = *self;
        let mut y: usize = 0;
        while y < height
            invariant
                self.wf(),
                self.width == width,
                self.height == height,
                self.metadata == before.metadata,
                self.data@.len() <= usize::MAX,
                levels == before.chosen_levels(subtract),
                before.wf(),
                before.width == width,
                before.height == height,
                y <= height,
                forall|px: int, py: int|
                    0 <= px < width && 0 <= py < height ==> #[trigger] self.at(px, py) == if py
                        < y {
                        clamp_sub(
                            before.at(px, py),
                            level_of(levels, before.metadata.cfa.spec_color_at(px, py)),
                        )
                    } else {
                        before.at(px, py)
                    },
            decreases height - y,
        {
            let mut x: usize = 0;
            while x < width
                invariant
                    self.wf(),
                    self.width == width,
                    self.height == height,
                    self.metadata == before.metadata,
                    self.data@.len() <= usize::MAX,
                    levels == before.chosen_levels(subtract),
                    before.wf(),
                    before.width == width,
                    before.height == height,
                    y < height,
                    x <= width,
                    forall|px: int, py: int|
                        0 <= px < width && 0 <= py < height ==> #[trigger] self.at(px, py) == if py
                            < y || (py == y && px < x) {
                            clamp_sub(
                                before.at(px, py),
                                level_of(levels, before.metadata.cfa.spec_color_at(px, py)),
                            )
                        } else {
                            before.at(px, py)
                        },
                decreases width - x,
            {
                proof {
                    lemma_site_in_bounds(width as int, height as int, x as int, y as int);
                }
                let i = y * width + x;
                let black = match self.metadata.cfa.color_at(x, y) {
                    Color::Red => levels.0,
                    Color::Green => levels.1,
                    Color::Blue => levels.2,
                };
                let light = self.data[i];
                let v = if light < black {
                    0
                } else {
                    light - black
                };
                let ghost mid = *self;
                assert(mid.at(x as int, y as int) == before.at(x as int, y as int));
                self.data.set(i, v);
                assert(self.at(x as int, y as int) == v);
                proof {
                    assert forall|px: int, py: int|
                        0 <= px < width && 0 <= py < height implies #[trigger] self.at(px, py)
                            == if py < y || (py == y && px < x + 1) {
                            clamp_sub(
                                before.at(px, py),
                                level_of(levels, before.metadata.cfa.spec_color_at(px, py)),
                            )
                        } else {
                            before.at(px, py)
                        } by {
                        lemma_site_in_bounds(width as int, height as int, px, py);
                        if px != x || py != y {
                            if site(width as int, px, py) == site(width as int, x as int, y as int) {
                                crate::image::lemma_site_injective(
                                    width as int,
                                    px,
                                    py,
                                    x as int,
                                    y as int,
                                );
                            }
                            assert(self.at(px, py) == mid.at(px, py));
                        }
                    }
                }
                x = x + 1;
            }
            y = y + 1;
        }
    }
}

} // verus!
