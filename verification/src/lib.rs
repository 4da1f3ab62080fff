//! Verified core of a desktop IDE backend: a registry of pseudo-terminal
//! sessions with bounded scrollback and a prompt-based status heuristic,
//! together with the pure parts of the project-tree tooling around it.

pub mod binary_tree;
pub mod db;
pub mod diff;
pub mod fs;
pub mod lsm_index;
pub mod mmap_viewer;
pub mod node_order;
pub mod output_buffer;
pub mod pty_commands;
pub mod registry;
pub mod scan_dir;
pub mod search;
pub mod session;
pub mod shell;
pub mod status;
pub mod text;
pub mod watcher;
