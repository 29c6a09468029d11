pub mod entity2d;
pub mod error;
pub mod frame;
pub mod game;
pub mod geometry;
pub mod listing;
pub mod scene_texture_manager;
