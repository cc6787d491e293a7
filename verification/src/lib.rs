//! Core of a markdown editor: a single-pass render pipeline that turns raw
//! markup into body HTML plus a table of contents with collision-free anchor
//! identifiers, a memoizing renderer keyed on the raw content, and a small
//! scheduler for the deferred post-render highlight pass.

pub mod anchor;
pub mod digits;
pub mod events;
pub mod outline;
pub mod pipeline;
pub mod scheduler;
pub mod slug;
