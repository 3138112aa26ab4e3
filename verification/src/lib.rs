//! A terminal role-playing game engine: player progression, farming,
//! combat encounters, a virtual file-system view of the world, command and
//! action parsing, and a small UI template language.

pub mod actions;
pub mod combat;
pub mod command;
pub mod engine;
pub mod exploration;
pub mod game;
pub mod farming;
pub mod persistence;
pub mod player;
pub mod rng;
pub mod scheduler;
pub mod template;
pub mod ui;
pub mod text;
pub mod ui_template;
pub mod vfs;
pub mod world;
