//! Verified core of a status bar for a tiling window manager.
//!
//! The bar shows periodically refreshed command output ("blocks") together
//! with live window-manager state (workspace tags, focused tag, focused
//! window title) on every display. This crate holds the logic of that
//! pipeline — timer coalescing, event dispatch decisions, the double-buffer
//! commit protocol with damage tracking, and the layout policy of both draw
//! passes — as verified functions over plain values. The display protocol,
//! the text-rasterization backend and process spawning are external
//! collaborators driven by an unverified shell around this library.

pub mod discovery;
pub mod registry;
pub mod render;
pub mod scheduler;
pub mod tags;
