//! Raw sensor processing: colour filter arrays, sensor images, cropping,
//! black levels and demosaicing of integer sensor samples.

pub mod canvas;
pub mod cfa;
pub mod colorspace;
pub mod convert;
pub mod debayer;
pub mod image;
pub mod levels;
pub mod output;
pub mod random;
pub mod subsample;
