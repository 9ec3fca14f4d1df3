//! A layered, in-memory window-layout engine.
//!
//! Every layer owns the one below it and adds one capability: tiling,
//! floating windows, minimising, a fullscreen slot and, outermost, a fixed
//! set of workspaces. Each layer has a mathematical model of its state
//! (its view), and every operation is specified as a transition of that
//! model.

pub mod types;
pub mod layouter;
pub mod master_stack;
pub mod gaps;
pub mod spiral;
pub mod error;
pub mod seqs;
pub mod real_window_info;
pub mod tiling;
pub mod floating;
pub mod minimising;
pub mod fullscreen;
pub mod workspaces;
pub mod monocle;
