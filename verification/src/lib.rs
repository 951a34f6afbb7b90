//! Decision logic of a terminal workbench: the file sidebar, its Git
//! decorations and file operations, the pane chrome, and the lifecycle of the
//! processes that run in the panes.
//!
//! Everything here is a function of plain values. Reading directories, running
//! processes and painting a frame belong to the surrounding program, which
//! hands events in and carries the returned requests out.

pub mod bytes;
pub mod collections;
pub mod context_menu;
pub mod decorate;
pub mod decoration_laws;
pub mod geometry;
pub mod git;
pub mod git_laws;
pub mod git_status;
pub mod input;
pub mod jobs;
pub mod key_laws;
pub mod listing;
pub mod listing_laws;
pub mod load;
pub mod mouse_laws;
pub mod mutation;
pub mod operation_laws;
pub mod part_laws;
pub mod path;
pub mod path_laws;
pub mod process_laws;
pub mod reconcile_laws;
pub mod request_laws;
pub mod rooted;
pub mod round_laws;
pub mod row_laws;
pub mod runtime;
pub mod runtime_laws;
pub mod runtime_replies;
pub mod runtime_state;
pub mod runtime_view;
pub mod session_laws;
pub mod sessions;
pub mod sidebar;
pub mod sidebar_laws;
pub mod sidebar_view;
pub mod state;
pub mod style;
pub mod subtree;
pub mod text;
pub mod text_laws;
pub mod title;
pub mod tree;
pub mod tree_laws;
pub mod trust;
pub mod trust_laws;
pub mod value_laws;
pub mod view_laws;
pub mod watch_laws;
pub mod workbench;
