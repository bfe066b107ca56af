//! The guilds the bot is a member of.

pub mod nickname;
