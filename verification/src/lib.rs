//! Orpheus: the scheduling and story-game logic of a chat bot.
//!
//! The library holds what the bot decides: which poll days are ruled out,
//! how poll and game messages are laid out and read back, how the story
//! order is kept, and how a reaction is handled step by step.

pub mod emoji;
pub mod status;
pub mod text;
pub mod codec;
pub mod date;
pub mod pattern;
pub mod poll;
pub mod poll_text;
pub mod telephone;
pub mod handler;
pub mod commands;
pub mod discord;
