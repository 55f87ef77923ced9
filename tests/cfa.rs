use rawproc::cfa::{Color, CFA};

#[test]
fn color_at_rggb() {
    // Testing initial pattern
    assert_eq!(CFA::RGGB.color_at(0, 0), Color::Red);
    assert_eq!(CFA::RGGB.color_at(1, 0), Color::Green);
    assert_eq!(CFA::RGGB.color_at(0, 1), Color::Green);
    assert_eq!(CFA::RGGB.color_at(1, 1), Color::Blue);

    // Testing expanded pattern
    assert_eq!(CFA::RGGB.color_at(2, 2), Color::Red);
    assert_eq!(CFA::RGGB.color_at(3, 2), Color::Green);
    assert_eq!(CFA::RGGB.color_at(2, 3), Color::Green);
    assert_eq!(CFA::RGGB.color_at(3, 3), Color::Blue);
}

fn expected_tile(x: usize, y: usize) -> Color {
    match (x % 2, y % 2) {
        (0, 0) => Color::Red,
        (1, 1) => Color::Blue,
        _ => Color::Green,
    }
}

#[test]
fn rggb_tiling_everywhere() {
    for y in 0..16 {
        for x in 0..16 {
            assert_eq!(CFA::RGGB.color_at(x, y), expected_tile(x, y));
        }
    }
}

#[test]
fn shifted_pattern_follows_the_tile() {
    for dy in 0..4 {
        for dx in 0..4 {
            let shifted = CFA::RGGB.shift(dx, dy);
            for y in 0..8 {
                for x in 0..8 {
                    assert_eq!(shifted.color_at(x, y), expected_tile(x + dx, y + dy));
                }
            }
        }
    }
}

#[test]
fn shift_names_the_phase() {
    assert_eq!(CFA::RGGB.shift(1, 0), CFA::GRBG);
    assert_eq!(CFA::RGGB.shift(0, 1), CFA::GBRG);
    assert_eq!(CFA::RGGB.shift(1, 1), CFA::BGGR);
    assert_eq!(CFA::RGGB.shift(2, 4), CFA::RGGB);
    assert_eq!(CFA::BGGR.shift(1, 1), CFA::RGGB);
    assert_eq!(CFA::GRBG.color_at(0, 0), Color::Green);
    assert_eq!(CFA::GRBG.color_at(1, 0), Color::Red);
    assert_eq!(CFA::BGGR.color_at(0, 0), Color::Blue);
}

#[test]
fn channel_indices_and_names() {
    assert_eq!(Color::Red.rgb_index(), 0);
    assert_eq!(Color::Green.rgb_index(), 1);
    assert_eq!(Color::Blue.rgb_index(), 2);
    assert_eq!(Color::Green.name(), "green");
    assert_eq!(Color::Blue.name(), "blue");
}

#[test]
fn pattern_from_corner_colors() {
    assert_eq!(CFA::from_colors(0, 1, 1, 2), Some(CFA::RGGB));
    assert_eq!(CFA::from_colors(1, 0, 2, 1), Some(CFA::GRBG));
    assert_eq!(CFA::from_colors(1, 2, 0, 1), Some(CFA::GBRG));
    assert_eq!(CFA::from_colors(2, 1, 1, 0), Some(CFA::BGGR));
    assert_eq!(CFA::from_colors(0, 1, 3, 2), None);
    assert_eq!(CFA::from_colors(0, 0, 0, 0), None);
}
