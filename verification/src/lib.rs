//! The document core of a level editor: the persisted scene format with its
//! schema history, the undo history, voxel excavation, tilemaps and the
//! keyframe sequencer.

pub mod bits;
pub mod guid;
pub mod props;
pub mod scene;
pub mod sequencer;
pub mod text;
