//! Conflict resolution logic for git merges: the branch pair, the
//! marker-stripping of conflicted files, the selection of conflicted paths,
//! the parents of a resolution commit, the index entries of a tree-level
//! resolution and the filling of the index with them, and the state machine
//! of the interactive menu.
pub mod branches;
pub mod markers;
pub mod outside;
pub mod status;
pub mod entries;
pub mod commit;
pub mod menu;
pub mod index_fill;
