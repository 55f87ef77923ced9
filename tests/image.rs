use rawproc::cfa::{Color, CFA};
use rawproc::colorspace::{Attribute, BayerRgb, LinRgb, Srgb};
use rawproc::image::{Crop, Error, Image, RawMetadata};
use rawproc::subsample::subsample;

fn meta(crop: Option<Crop>) -> RawMetadata {
    RawMetadata {
        whitelevels: [4095, 4095, 4095],
        blacklevels: [10, 20, 30],
        crop,
        cfa: CFA::RGGB,
    }
}

fn ramp(width: usize, height: usize) -> Vec<u16> {
    (0..width * height).map(|i| i as u16).collect()
}

#[test]
fn css_quad_all_zero_is_no_crop() {
    assert!(Crop::from_css_quad([0, 0, 0, 0]).is_none());
    let c = Crop::from_css_quad([1, 2, 3, 4]).unwrap();
    assert_eq!((c.top, c.right, c.bottom, c.left), (1, 2, 3, 4));
    assert!(Crop::from_css_quad([0, 0, 0, 5]).is_some());
}

#[test]
fn raw_parts_must_match_the_size() {
    let err = Image::<u16, BayerRgb>::from_raw_parts(4, 4, meta(None), vec![0; 15]);
    assert_eq!(err.err(), Some(Error::DataLength));
    let err = Image::<u16, LinRgb>::from_raw_parts(2, 2, meta(None), vec![0; 4]);
    assert_eq!(err.err(), Some(Error::DataLength));
    let ok = Image::<u16, LinRgb>::from_raw_parts(2, 2, meta(None), vec![0; 12]).unwrap();
    assert_eq!((ok.width, ok.height, ok.data.len()), (2, 2, 12));
    let huge = Image::<u16, BayerRgb>::from_raw_parts(usize::MAX, 2, meta(None), vec![]);
    assert_eq!(huge.err(), Some(Error::DataLength));
}

#[test]
fn crop_keeps_the_inner_window() {
    let crop = Crop { top: 1, right: 2, bottom: 1, left: 1 };
    let mut img = Image::<u16, BayerRgb>::from_raw_parts(6, 4, meta(Some(crop)), ramp(6, 4)).unwrap();
    img.crop().unwrap();
    assert_eq!((img.width, img.height), (3, 2));
    assert_eq!(img.data, vec![7, 8, 9, 13, 14, 15]);
    assert!(img.metadata.crop.is_none());
}

#[test]
fn crop_rephases_the_pattern() {
    let crop = Crop { top: 1, right: 0, bottom: 0, left: 3 };
    let before = CFA::RGGB;
    let mut img = Image::<u16, BayerRgb>::from_raw_parts(8, 4, meta(Some(crop)), ramp(8, 4)).unwrap();
    img.crop().unwrap();
    assert_eq!(img.metadata.cfa.color_at(0, 0), before.color_at(3, 1));
    for y in 0..img.height {
        for x in 0..img.width {
            assert_eq!(img.metadata.cfa.color_at(x, y), before.color_at(x + 3, y + 1));
        }
    }
}

#[test]
fn crop_twice_is_a_no_op() {
    let crop = Crop { top: 2, right: 0, bottom: 0, left: 2 };
    let mut img = Image::<u16, BayerRgb>::from_raw_parts(4, 4, meta(Some(crop)), ramp(4, 4)).unwrap();
    img.crop().unwrap();
    let data = img.data.clone();
    let cfa = img.metadata.cfa;
    img.crop().unwrap();
    assert_eq!(img.data, data);
    assert_eq!(img.metadata.cfa, cfa);
    assert_eq!((img.width, img.height), (2, 2));
}

#[test]
fn crop_larger_than_the_image_is_refused() {
    let crop = Crop { top: 0, right: 3, bottom: 0, left: 2 };
    let mut img = Image::<u16, BayerRgb>::from_raw_parts(4, 4, meta(Some(crop)), ramp(4, 4)).unwrap();
    assert_eq!(img.crop(), Err(Error::CropTooLarge));
    assert_eq!((img.width, img.height), (4, 4));
    assert_eq!(img.data, ramp(4, 4));
    assert!(img.metadata.crop.is_some());
}

#[test]
fn black_levels_clamp_at_zero() {
    let data = vec![5, 25, 40, 50, 15, 100, 31, 29];
    let mut img = Image::<u16, BayerRgb>::from_raw_parts(4, 2, meta(None), data).unwrap();
    img.black_levels(None);
    // Row 0: R G R G with levels 10, 20; row 1: G B G B with levels 20, 30.
    assert_eq!(img.data, vec![0, 5, 30, 30, 0, 70, 11, 0]);

    let mut img = Image::<u16, BayerRgb>::from_raw_parts(2, 2, meta(None), vec![100, 100, 100, 100]).unwrap();
    img.black_levels(Some((1, 2, 3)));
    assert_eq!(img.data, vec![99, 98, 98, 97]);
}

#[test]
fn subsample_keeps_the_top_left_of_each_block() {
    let img = Image::<u16, BayerRgb>::from_raw_parts(17, 16, meta(None), ramp(17, 16)).unwrap();
    let small = subsample(img);
    assert_eq!((small.width, small.height), (4, 4));
    assert_eq!(
        small.data,
        vec![0, 1, 8, 9, 17, 18, 25, 26, 136, 137, 144, 145, 153, 154, 161, 162]
    );
}

#[test]
fn rgb_components() {
    let mut img = Image::<u16, LinRgb>::from_raw_parts(2, 1, meta(None), vec![1, 2, 3, 4, 5, 6]).unwrap();
    assert_eq!(img.component(1, 0, Color::Green), 5);
    img.set_component(1, Color::Blue, 9);
    assert_eq!(img.data, vec![1, 2, 3, 4, 5, 9]);
    assert_eq!(Attribute::Saturation.index(), 1);
    assert_eq!(Attribute::Hue.name(), "hue");
}

#[test]
fn bytes_scale_by_channel_whitelevel() {
    let mut m = meta(None);
    m.whitelevels = [1000, 255, 4095];
    let data = vec![500, 255, 4095, 1000, 0, 9000];
    let img = Image::<u16, Srgb>::from_raw_parts(2, 1, m, data).unwrap();
    let out = img.bytes().unwrap();
    assert_eq!(out.data, vec![127, 255, 255, 255, 0, 255]);

    let mut m = meta(None);
    m.whitelevels = [1000, 0, 4095];
    let img = Image::<u16, Srgb>::from_raw_parts(1, 1, m, vec![1, 2, 3]).unwrap();
    assert_eq!(img.bytes().err(), Some(Error::ZeroWhitelevel));
}
