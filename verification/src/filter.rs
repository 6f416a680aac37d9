pub use fm_decode::FmDecodeFilter;
pub use fm_noise::FmDenoiseFilter;
pub use raw_demod::RawDemodFilter;

pub mod fm_decode;
pub mod fm_noise;
pub mod raw_demod;
