pub mod channels;
pub mod colormap;
pub mod error;
pub mod framing;
pub mod render;

pub use colormap::SpectrogramColormap;
pub use error::PipelineError;
