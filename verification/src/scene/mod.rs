//! The scene: what a level holds, how it is stored and how it is edited.

pub mod carve;
pub mod command;
pub mod command_laws;
pub mod component;
pub mod decode;
pub mod dig;
pub mod doc;
pub mod edit;
pub mod edit_laws;
pub mod entity;
pub mod file;
pub mod foliage;
pub mod history;
pub mod ladder_early;
pub mod ladder_late;
pub mod ladder_laws;
pub mod lineage;
pub mod paint;
pub mod record;
pub mod reflect;
pub mod replay;
pub mod save;
pub mod save_laws;
pub mod settings;
pub mod sky;
pub mod storage;
pub mod stroke;
pub mod terrain;
pub mod tilemap;
