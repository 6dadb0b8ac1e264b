//! AI: officer scoring, move evaluation and turn decisions.

pub mod movement;
pub mod scoring;
pub mod decision;
