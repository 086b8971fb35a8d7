//! The pull-request feed of a desktop clock: a scheduler that decides when to
//! refresh, a fetch cycle that walks a cascade of remote lookups and degrades
//! softly at every stage, and a single-slot mailbox that hands each outcome
//! back to the render loop.

pub mod model;
pub mod json;
pub mod ranking;
pub mod directory;
pub mod cascade;
pub mod scheduler;
pub mod feed;
pub mod clock;
pub mod text;
pub mod glyph;
