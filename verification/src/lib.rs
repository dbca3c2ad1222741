//! Window minimization for a scrollable-tiling compositor.
//!
//! The layout owns every managed window exactly once: in a workspace, under the pointer or in the
//! queue of minimized windows. Minimizing and restoring move a live window between these places.
//! Transitions show snapshots of windows on their way, and own nothing.

// The state.
pub mod types;
pub mod window;
pub mod tile;
pub mod column;
pub mod workspace;
pub mod sizing;
pub mod monitor;
pub mod layout;

// Counting and changing tiles.
pub mod ownership;
pub mod lists;
pub mod placement;
pub mod spots;
pub mod retile;
pub mod conceal;

// Windows and outputs.
pub mod windows;
pub mod outputs;
pub mod minimized;
pub mod requests;
pub mod managed;
pub mod invariants;

// Transitions.
pub mod targets;
pub mod prepare;
pub mod minimize_animation;
pub mod advance;
pub mod render;

// What holds of the whole.
pub mod laws;
pub mod minimize_laws;
pub mod restore_laws;
pub mod request_laws;
pub mod report_laws;
pub mod output_laws;
pub mod transition_laws;
pub mod animation_laws;
