//! The sequencer: a timeline of scalar property tracks, stored per project.

pub mod path;
pub mod scrub;
pub mod sequence;
pub mod track;
