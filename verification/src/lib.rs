//! A keyboard- and mouse-driven terminal file explorer, as a verified
//! library: the navigation state machine, the directory-listing order, the
//! preview pipeline with its binary, size and encoding guards, the panel
//! geometry and scroll model, the porcelain status parser, and the
//! conversion of a highlighting engine's event stream into styled lines.
//!
//! Terminal drawing, filesystem and process access live outside the
//! library; they hand plain values in and take plain values back.
pub mod actions;
pub mod config;
pub mod current_dir;
pub mod engine;
pub mod git;
pub mod highlight;
pub mod listing;
pub mod navigation;
pub mod node;
pub mod pane;
pub mod preview;
pub mod preview_doc;
pub mod session;
pub mod status;
pub mod text;
pub mod wrap;

pub use node::NodeType;
pub use node::TreeNode;
