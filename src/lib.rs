pub mod compositor;
pub mod container;
pub mod error;
pub mod metadata;
pub mod plan;
pub mod progress;
pub mod rules;

pub use compositor::{overlay_watermark, Raster};
pub use error::{CopyFailurePolicy, ProcessError};
pub use metadata::recopy_metadata;
pub use plan::{plan_entries, Entry, FileTask, Plan};
pub use progress::ProgressCounter;
pub use rules::Rules;
