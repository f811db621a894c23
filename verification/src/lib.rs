//! Verified parts of a coding agent's turn engine.
//!
//! - [`stall`] notices that a turn repeats one tool call over and over.
//! - [`ask_freeze`] keeps a session's tools waiting while a question to a human
//!   is open.
//! - [`read_image`] decides whether an image file may be handed to the agent;
//!   [`image_format`] tells formats and animations apart, and [`messages`] holds
//!   the words.
//! - [`outside`] holds the calls into other crates.
#![allow(unused_imports)]

pub mod ask_freeze;
pub mod bytes;
pub mod image_format;
pub mod messages;
pub mod outside;
pub mod read_image;
pub mod stall;
pub mod text;
