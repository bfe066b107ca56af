//! Staged setup for a chat bot.
//!
//! Feature modules register setup operands under a target. The builder merges
//! them into one step per target, and a run then deals with the steps one
//! after the other: a step whose target cannot be reached is left out, and the
//! first failure ends the run.
//!
//! Nothing here talks to the network. Wherever a decision rests on what the
//! platform answered, the answer is a parameter, and wherever something has
//! to be done on the platform, what to do is the result.
//!
//! - [`guild`]: the member guilds and their identifiers.
//! - [`controller`]: the targets, what stands behind them, and which call of
//!   the command API goes to them.
//! - [`setup`]: scopes, steps, their collections, the builder, and the run.
//! - [`init`]: initializers, the one step type there is.
//! - [`event`]: the handlers of platform events.
//! - [`features`]: what the bot registers.

pub mod controller;
pub mod event;
pub mod features;
pub mod guild;
pub mod init;
pub mod setup;
