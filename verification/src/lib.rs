//! In-repository project management: a file-per-ticket issue tracker, the
//! per-user and per-repository configuration that goes with it, and the
//! hook stubs that tie both into a git repository.
//!
//! The crate touches no file and no terminal: it decides what is to be read,
//! written or removed and leaves the reading, writing and removing to its
//! caller. A command takes what its caller found in the repository and hands
//! back a plan, a list of [`plan::Effect`]s, or the [`error::Error`] that
//! keeps it from making one.
//!
//! Two things it does take from the machine. [`id::uuid_v1`] reads the clock
//! and draws random numbers, and so do the functions that make an identifier
//! through it: [`commands::new`], [`commands::comment`],
//! [`commands::migrate_ticket`] and [`tui::handle_event`].
//! [`config::UserConfig::new`] draws a random identifier, and so does
//! [`config::create_user_config`]. Each of them has a sibling that takes the
//! identifier as an argument and depends on nothing else.
//!
//! - [`ticket`], [`comments`]: tickets and their comment logs.
//! - [`codec`], [`document`]: how tickets stand in TOML files.
//! - [`actions`]: the ticket store, [`commands`]: the commands on it.
//! - [`tui`], [`render`]: the interactive browser and what it shows.
//! - [`config`]: the user and the maintainers of a repository.
//! - [`hooks`], [`commit_msg`]: git hooks and the rule for commit messages.
//! - [`id`], [`text`], [`order`], [`plan`], [`root`], [`suite`]: what the
//!   others stand on.

pub mod actions;
pub mod codec;
pub mod commands;
pub mod comments;
pub mod commit_msg;
pub mod config;
pub mod document;
pub mod error;
pub mod hooks;
pub mod id;
pub mod order;
pub mod plan;
pub mod render;
pub mod root;
pub mod suite;
pub mod text;
pub mod ticket;
pub mod tui;
