use rawproc::cfa::{Color, CFA};
use rawproc::colorspace::{BayerRgb, LinRgb};
use rawproc::debayer::{Debayer, Interpolation};
use rawproc::image::{Error, Image, RawMetadata};
use rawproc::random::RollingRandom;

fn meta() -> RawMetadata {
    RawMetadata {
        whitelevels: [4095, 4095, 4095],
        blacklevels: [0, 0, 0],
        crop: None,
        cfa: CFA::RGGB,
    }
}

// R G R G
// G B G B
// R G R G
// G B G B
fn grid() -> Image<u16, BayerRgb> {
    let data = vec![
        10, 20, 30, 40, //
        50, 61, 70, 83, //
        95, 100, 117, 120, //
        130, 141, 150, 163,
    ];
    Image::from_raw_parts(4, 4, meta(), data).unwrap()
}

fn px(img: &Image<u16, LinRgb>, x: usize, y: usize) -> (u16, u16, u16) {
    let i = (y * img.width + x) * 3;
    (img.data[i], img.data[i + 1], img.data[i + 2])
}

fn bilinear(img: Image<u16, BayerRgb>) -> Image<u16, LinRgb> {
    Debayer::new(img).interpolate(Interpolation::Bilinear).unwrap()
}

#[test]
fn bilinear_keeps_native_samples() {
    let sensor = grid();
    let cfa = sensor.metadata.cfa;
    let rgb = bilinear(grid());
    for y in 0..4 {
        for x in 0..4 {
            let c = cfa.color_at(x, y).rgb_index();
            assert_eq!(rgb.data[(y * 4 + x) * 3 + c], sensor.data[y * 4 + x]);
        }
    }
}

#[test]
fn bilinear_hand_computed_averages() {
    let rgb = bilinear(grid());
    assert_eq!((rgb.width, rgb.height, rgb.data.len()), (4, 4, 48));
    // Corner red: green from right and below, blue from the diagonal.
    assert_eq!(px(&rgb, 0, 0), (10, 35, 61));
    // Top edge green: red from left and right, blue from below.
    assert_eq!(px(&rgb, 1, 0), (20, 20, 61));
    // Top edge red: three greens and two blues.
    assert_eq!(px(&rgb, 2, 0), (30, 43, 72));
    // Left edge green: red above and below (rounded down), blue to the right.
    assert_eq!(px(&rgb, 0, 1), (52, 50, 61));
    // Interior blue: four reds on the diagonals, four greens around.
    assert_eq!(px(&rgb, 1, 1), (63, 60, 61));
    // Interior red: four greens, four blues.
    assert_eq!(px(&rgb, 2, 2), (117, 110, 112));
    // Right edge green: one red to the left, blue above and below.
    assert_eq!(px(&rgb, 3, 2), (117, 120, 123));
    // Corner blue: one red, two greens.
    assert_eq!(px(&rgb, 3, 3), (117, 135, 163));
}

#[test]
fn uniform_gray_stays_gray() {
    let img = Image::<u16, BayerRgb>::from_raw_parts(4, 4, meta(), vec![2048; 16]).unwrap();
    let rgb = bilinear(img);
    assert!(rgb.data.iter().all(|&v| v == 2048));
    let img = Image::<u16, BayerRgb>::from_raw_parts(5, 3, meta(), vec![700; 15]).unwrap();
    let rgb = Debayer::new(img).interpolate(Interpolation::NearestNeighbor).unwrap();
    assert!(rgb.data.iter().all(|&v| v == 700));
}

#[test]
fn passthrough_leaves_missing_channels_zero() {
    let rgb = Debayer::new(grid()).interpolate(Interpolation::Passthrough).unwrap();
    assert_eq!(px(&rgb, 0, 0), (10, 0, 0));
    assert_eq!(px(&rgb, 1, 0), (0, 20, 0));
    assert_eq!(px(&rgb, 1, 1), (0, 0, 61));
}

fn neighbor_values(sensor: &Image<u16, BayerRgb>, x: usize, y: usize, c: Color) -> Vec<u16> {
    let mut out = vec![];
    for dy in -1i64..=1 {
        for dx in -1i64..=1 {
            if dx == 0 && dy == 0 {
                continue;
            }
            let nx = x as i64 + dx;
            let ny = y as i64 + dy;
            if nx < 0 || ny < 0 || nx >= sensor.width as i64 || ny >= sensor.height as i64 {
                continue;
            }
            let (nx, ny) = (nx as usize, ny as usize);
            if sensor.metadata.cfa.color_at(nx, ny) == c {
                out.push(sensor.data[ny * sensor.width + nx]);
            }
        }
    }
    out
}

fn distinct_sensor(width: usize, height: usize, cfa: CFA) -> Image<u16, BayerRgb> {
    let data = (0..width * height).map(|i| (i * 7 + 3) as u16).collect();
    let mut m = meta();
    m.cfa = cfa;
    Image::from_raw_parts(width, height, m, data).unwrap()
}

fn assert_copies_a_neighbor(sensor: &Image<u16, BayerRgb>, rgb: &Image<u16, LinRgb>) {
    for y in 0..sensor.height {
        for x in 0..sensor.width {
            let native = sensor.metadata.cfa.color_at(x, y);
            for c in [Color::Red, Color::Green, Color::Blue] {
                let v = rgb.data[(y * sensor.width + x) * 3 + c.rgb_index()];
                if c == native {
                    assert_eq!(v, sensor.data[y * sensor.width + x]);
                } else {
                    assert!(neighbor_values(sensor, x, y, c).contains(&v), "({x}, {y}) {c:?} = {v}");
                }
            }
        }
    }
}

#[test]
fn nearest_neighbor_copies_a_same_colored_neighbor() {
    for cfa in [CFA::RGGB, CFA::GRBG, CFA::GBRG, CFA::BGGR] {
        for _ in 0..5 {
            let sensor = distinct_sensor(7, 6, cfa);
            let rgb = Debayer::new(distinct_sensor(7, 6, cfa)).interpolate(Interpolation::NearestNeighbor).unwrap();
            assert_copies_a_neighbor(&sensor, &rgb);
        }
    }
}

#[test]
fn window_debayer_copies_a_same_colored_neighbor() {
    for cfa in [CFA::RGGB, CFA::BGGR] {
        let sensor = distinct_sensor(5, 5, cfa);
        let rgb = distinct_sensor(5, 5, cfa).debayer().unwrap();
        assert_eq!((rgb.width, rgb.height), (5, 5));
        assert_copies_a_neighbor(&sensor, &rgb);
    }
}

#[test]
fn too_small_to_demosaic() {
    let img = Image::<u16, BayerRgb>::from_raw_parts(1, 4, meta(), vec![1; 4]).unwrap();
    assert_eq!(Debayer::new(img).interpolate(Interpolation::Bilinear).err(), Some(Error::TooSmall));
    let img = Image::<u16, BayerRgb>::from_raw_parts(1, 4, meta(), vec![1; 4]).unwrap();
    assert_eq!(
        Debayer::new(img).interpolate(Interpolation::NearestNeighbor).err(),
        Some(Error::TooSmall)
    );
    let img = Image::<u16, BayerRgb>::from_raw_parts(4, 1, meta(), vec![1; 4]).unwrap();
    assert_eq!(img.debayer().err(), Some(Error::TooSmall));
}

#[test]
fn window_debayer_works_on_float_samples() {
    let data: Vec<f32> = (0..16).map(|i| i as f32 * 0.5).collect();
    let img = Image::<f32, BayerRgb>::from_raw_parts(4, 4, meta(), data.clone()).unwrap();
    let rgb = img.debayer().unwrap();
    assert_eq!(rgb.data.len(), 48);
    for y in 0..4 {
        for x in 0..4 {
            let native = CFA::RGGB.color_at(x, y).rgb_index();
            assert_eq!(rgb.data[(y * 4 + x) * 3 + native], data[y * 4 + x]);
            for c in 0..3 {
                let v = rgb.data[(y * 4 + x) * 3 + c];
                assert!(data.contains(&v));
            }
        }
    }
}

#[test]
fn passthrough_copies_a_single_site() {
    let img = Image::<u16, BayerRgb>::from_raw_parts(1, 1, meta(), vec![42]).unwrap();
    let rgb = Debayer::new(img).interpolate(Interpolation::Passthrough).unwrap();
    assert_eq!((rgb.width, rgb.height), (1, 1));
    assert_eq!(rgb.data, vec![42, 0, 0]);
}

#[test]
fn nearest_neighbor_follows_the_drawn_bytes() {
    // Every byte even: up, left, and the row above or below on a tie.
    let mut rr = RollingRandom::from_bytes(vec![0]).unwrap();
    let rgb = Debayer::new(grid())
        .interpolate_with(Interpolation::NearestNeighbor, &mut rr)
        .unwrap();
    // Corner red: down and right are forced; green ties and takes below.
    assert_eq!(px(&rgb, 0, 0), (10, 50, 61));
    // Interior blue: up and left; red on the diagonal, green tie takes above.
    assert_eq!(px(&rgb, 1, 1), (10, 20, 61));

    // Every byte odd: down, right, and the site beside on a tie.
    let mut rr = RollingRandom::from_bytes(vec![1]).unwrap();
    let rgb = Debayer::new(grid())
        .interpolate_with(Interpolation::NearestNeighbor, &mut rr)
        .unwrap();
    assert_eq!(px(&rgb, 0, 0), (10, 20, 61));
    assert_eq!(px(&rgb, 1, 1), (117, 70, 61));
}

#[test]
fn window_pick_follows_the_drawn_bytes() {
    // At the interior blue site (1, 1) the red options in window order are
    // (0, 0), (2, 0), (0, 2), (2, 2); byte 6 picks index 2, (0, 2).
    let mut rr = RollingRandom::from_bytes(vec![6]).unwrap();
    let rgb = grid().debayer_with(&mut rr).unwrap();
    assert_eq!(rgb.data[(1 * 4 + 1) * 3], 95);
    // Greens at (1, 1): (1, 0), (0, 1), (2, 1), (1, 2); 6 % 4 picks (2, 1).
    assert_eq!(rgb.data[(1 * 4 + 1) * 3 + 1], 70);
}

#[test]
fn too_small_leaves_the_source_alone() {
    let mut rr = RollingRandom::from_bytes(vec![3, 4]).unwrap();
    let img = Image::<u16, BayerRgb>::from_raw_parts(1, 2, meta(), vec![1, 2]).unwrap();
    assert_eq!(img.debayer_with(&mut rr).err(), Some(Error::TooSmall));
    assert_eq!(rr.random_u8(), 3);
}
