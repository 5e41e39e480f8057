//! In-session metrics aggregation with a scrollable popup viewer.
//!
//! The crate tracks command executions, file touches, per-turn token usage and
//! time spent waiting on the model versus running tools, and turns a snapshot
//! of those statistics into a paginated, keyboard-navigable list of styled
//! text lines.  Rendering to a terminal and key-event decoding are left to the
//! host; this crate holds the data model, the arithmetic and the windowing
//! logic, all verified.

pub mod duration;
pub mod lines;
pub mod scroll_window;
pub mod session_stats;
pub mod stats_view;
pub mod text;
