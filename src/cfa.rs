use vstd::prelude::*;

verus! {

/// A native colour channel recorded by a sensor site.
#[derive(Copy, Clone, Debug, PartialEq, Eq, Structural)]
pub enum Color {
    Red,
    Green,
    Blue,
}

impl Color {
    /// Index of this channel in an interleaved RGB pixel.
    pub open spec fn spec_index(self) -> nat {
        match self {
            Color::Red => 0,
            Color::Green => 1,
            Color::Blue => 2,
        }
    }

    /// Index of this channel in an interleaved RGB pixel.
    pub fn rgb_index(&self) -> (r: usize)
        ensures
            r as nat == self.spec_index(),
    {
        match self {
            Color::Red => 0,
            Color::Green => 1,
            Color::Blue => 2,
        }
    }

    /// Lowercase name of the channel.
    pub fn name(&self) -> (r: &'static str)
        ensures
            *self == Color::Red ==> r@ == "red"@,
            *self == Color::Green ==> r@ == "green"@,
            *self == Color::Blue ==> r@ == "blue"@,
    {
        proof {
            reveal_strlit("red");
            reveal_strlit("green");
            reveal_strlit("blue");
        }
        match self {
            Color::Red => "red",
            Color::Green => "green",
            Color::Blue => "blue",
        }
    }
}

/// The channel that an index of an interleaved RGB pixel holds.
pub open spec fn color_of_index(c: nat) -> Color {
    if c == 0 {
        Color::Red
    } else if c == 1 {
        Color::Green
    } else {
        Color::Blue
    }
}

/// The repeating 2x2 RGGB tile in its own frame:
///
/// ```text
/// R G R G
/// G B G B
/// ```
pub open spec fn rggb_tile(x: int, y: int) -> Color {
    if x % 2 == 0 {
        if y % 2 == 0 {
            Color::Red
        } else {
            Color::Green
        }
    } else {
        if y % 2 == 0 {
            Color::Green
        } else {
            Color::Blue
        }
    }
}

/// A colour filter array. Only the RGGB tile is modelled; the variants are
/// its four phases, named by the first two rows of the tile at the origin.
/// Cropping an image re-phases its pattern, so any of them can occur.
#[derive(Copy, Clone, Debug, PartialEq, Eq, Structural)]
pub enum CFA {
    RGGB,
    GRBG,
    GBRG,
    BGGR,
}

impl CFA {
    /// Horizontal offset of this pattern into the RGGB tile.
    pub open spec fn phase_x(self) -> int {
        match self {
            CFA::RGGB => 0,
            CFA::GRBG => 1,
            CFA::GBRG => 0,
            CFA::BGGR => 1,
        }
    }

    /// Vertical offset of this pattern into the RGGB tile.
    pub open spec fn phase_y(self) -> int {
        match self {
            CFA::RGGB => 0,
            CFA::GRBG => 0,
            CFA::GBRG => 1,
            CFA::BGGR => 1,
        }
    }

    /// The colour recorded at `(x, y)`.
    pub open spec fn spec_color_at(self, x: int, y: int) -> Color {
        rggb_tile(x + self.phase_x(), y + self.phase_y())
    }

    /// The pattern with the given phase into the RGGB tile.
    pub open spec fn from_phase(px: int, py: int) -> CFA {
        if px % 2 == 0 {
            if py % 2 == 0 {
                CFA::RGGB
            } else {
                CFA::GBRG
            }
        } else {
            if py % 2 == 0 {
                CFA::GRBG
            } else {
                CFA::BGGR
            }
        }
    }

    /// The pattern seen from a frame whose origin lies at `(dx, dy)` of this one.
    pub open spec fn shift_spec(self, dx: int, dy: int) -> CFA {
        CFA::from_phase(self.phase_x() + dx, self.phase_y() + dy)
    }

    fn phase(&self) -> (r: (usize, usize))
        ensures
            r.0 as int == self.phase_x(),
            r.1 as int == self.phase_y(),
    {
        match self {
            CFA::RGGB => (0, 0),
            CFA::GRBG => (1, 0),
            CFA::GBRG => (0, 1),
            CFA::BGGR => (1, 1),
        }
    }

    fn with_phase(px: usize, py: usize) -> (r: CFA)
        requires
            px < 2,
            py < 2,
        ensures
            r == CFA::from_phase(px as int, py as int),
            r.phase_x() == px as int,
            r.phase_y() == py as int,
    {
        if px == 0 {
            if py == 0 {
                CFA::RGGB
            } else {
                CFA::GBRG
            }
        } else {
            if py == 0 {
                CFA::GRBG
            } else {
                CFA::BGGR
            }
        }
    }

    /// The channel indices of the top-left 2x2 block are those of this pattern.
    pub open spec fn has_corner(self, c00: nat, c10: nat, c01: nat, c11: nat) -> bool {
        &&& self.spec_color_at(0, 0).spec_index() == c00
        &&& self.spec_color_at(1, 0).spec_index() == c10
        &&& self.spec_color_at(0, 1).spec_index() == c01
        &&& self.spec_color_at(1, 1).spec_index() == c11
    }

    /// The phase of the RGGB tile whose top-left 2x2 block records the given
    /// channels (0 red, 1 green, 2 blue) at `(0, 0)`, `(1, 0)`, `(0, 1)` and
    /// `(1, 1)`; `None` where no phase of the tile does.
    pub fn from_colors(c00: usize, c10: usize, c01: usize, c11: usize) -> (r: Option<CFA>)
        ensures
            r matches Some(cfa) ==> cfa.has_corner(c00 as nat, c10 as nat, c01 as nat, c11 as nat),
            r is None ==> forall|cfa: CFA|
                !#[trigger] cfa.has_corner(c00 as nat, c10 as nat, c01 as nat, c11 as nat),
    {
        match (c00, c10, c01, c11) {
            (0, 1, 1, 2) => Some(CFA::RGGB),
            (1, 0, 2, 1) => Some(CFA::GRBG),
            (1, 2, 0, 1) => Some(CFA::GBRG),
            (2, 1, 1, 0) => Some(CFA::BGGR),
            _ => None,
        }
    }

    /// Which native colour the sensor site at `(x, y)` records.
    pub fn color_at(&self, x: usize, y: usize) -> (c: Color)
        ensures
            c == self.spec_color_at(x as int, y as int),
    {
        let (px, py) = self.phase();
        let tx = (x % 2 + px) % 2;
        let ty = (y % 2 + py) % 2;
        proof {
            assert((x as int + px as int) % 2 == tx as int) by (nonlinear_arith)
                requires
                    tx as int == (x as int % 2 + px as int) % 2,
                    0 <= px as int,
                    0 <= x as int,
            ;
            assert((y as int + py as int) % 2 == ty as int) by (nonlinear_arith)
                requires
                    ty as int == (y as int % 2 + py as int) % 2,
                    0 <= py as int,
                    0 <= y as int,
            ;
        }
        if tx == 0 {
            if ty == 0 {
                Color::Red
            } else {
                Color::Green
            }
        } else {
            if ty == 0 {
                Color::Green
            } else {
                Color::Blue
            }
        }
    }

    /// The same physical pattern seen from a frame whose origin lies at
    /// `(dx, dy)` of this one, as after removing `dx` columns on the left
    /// and `dy` rows on the top.
    pub fn shift(&self, dx: usize, dy: usize) -> (r: CFA)
        ensures
            r == self.shift_spec(dx as int, dy as int),
            forall|x: int, y: int|
                #![trigger r.spec_color_at(x, y)]
                r.spec_color_at(x, y) == self.spec_color_at(x + dx, y + dy),
    {
        let (px, py) = self.phase();
        let nx = (dx % 2 + px) % 2;
        let ny = (dy % 2 + py) % 2;
        let r = CFA::with_phase(nx, ny);
        proof {
            assert((px as int + dx as int) % 2 == nx as int) by (nonlinear_arith)
                requires
                    nx as int == (dx as int % 2 + px as int) % 2,
                    0 <= px as int,
                    0 <= dx as int,
            ;
            assert((py as int + dy as int) % 2 == ny as int) by (nonlinear_arith)
                requires
                    ny as int == (dy as int % 2 + py as int) % 2,
                    0 <= py as int,
                    0 <= dy as int,
            ;
            assert forall|x: int, y: int|
                #![trigger r.spec_color_at(x, y)]
                r.spec_color_at(x, y) == self.spec_color_at(x + dx, y + dy) by {
                lemma_tile_parity(x + nx, y + ny, x + dx + px, y + dy + py);
            }
        }
        r
    }
}

/// The tile depends on coordinates only through their parity.
pub proof fn lemma_tile_parity(x1: int, y1: int, x2: int, y2: int)
    requires
        (x1 - x2) % 2 == 0,
        (y1 - y2) % 2 == 0,
    ensures
        rggb_tile(x1, y1) == rggb_tile(x2, y2),
{
    assert(x1 % 2 == x2 % 2) by (nonlinear_arith)
        requires
            (x1 - x2) % 2 == 0,
    ;
    assert(y1 % 2 == y2 % 2) by (nonlinear_arith)
        requires
            (y1 - y2) % 2 == 0,
    ;
}

} // verus!
