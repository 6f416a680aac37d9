pub use ltc_frame::LtcFrame;
pub use pipeline::LtcPipeline;
pub use reader::LtcFrameReader;

pub mod filter;
pub mod ltc_frame;
pub mod pipeline;
pub mod reader;
