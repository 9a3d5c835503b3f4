//! A single-threaded message-dispatch core for three cooperating roles: a
//! data-holding model, a presenting view, and an input-handling controller.
//!
//! The heart of the crate is an ordered command scheduler: a nested-frame
//! command queue ([`command_queue::CommandList`]) together with a dispatch
//! loop ([`mvc::MVCSystem`]) that drains it depth-first while handlers
//! schedule further work with immediate, same-level or globally deferred
//! timing.

pub mod command_queue;
pub mod mvc;
