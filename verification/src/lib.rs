//! Game logic of a turn-based strategy game: its data model, AI, battles,
//! rounds, scenario set-up and game-loop decisions, resource decompression,
//! rendering helpers and UI widgets.

pub mod data;
pub mod ai;
pub mod battle;
pub mod city;
pub mod round;
pub mod scene;
pub mod scenario;
pub mod game_loop;
pub mod input;
pub mod platform;
pub mod resource;
pub mod render;
pub mod ui;
