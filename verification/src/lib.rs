//! Output-formatting core of a static site generator.
//!
//! Three renderers sit on a shared data model: an article page renderer, an
//! index page renderer with a bounded-width reference-line wrapper, and an
//! Atom feed renderer with per-entry timestamp resolution.  Every renderer is
//! a pure function from driver-supplied records to the exact text it emits;
//! file writing, progress output and filesystem metadata lookups are left to
//! the caller.

pub mod model;
pub mod textutil;
pub mod article;
pub mod index_page;
pub mod feed;
