//! Verified core of the Photon engine: the `.mpht` map format, map
//! listing, console command language, menu/window state machine, input
//! key tracking and the integer side of mesh and lighting setup.

pub mod scene;
pub mod map;
pub mod files;
pub mod text;
pub mod console;
pub mod config;
pub mod app;
pub mod ui;
pub mod input;
pub mod mesh;
pub mod texture;
pub mod audio;
pub mod menu;
pub mod frames;
