//! Chart building blocks: colour schemes, tick generation for numeric and
//! timestamp axes, label alignment and the option enums that a chart is
//! configured with.

pub mod aligned_floats;
pub mod builder_options;
pub mod colours;
pub mod options;
pub mod span;
pub mod text;
pub mod tick_labels;
pub mod timestamp_gen;
pub mod timestamp_laws;
pub mod timestamps;
pub mod utc;
