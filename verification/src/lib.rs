//! An interactive browser for a hierarchical credential store.
//!
//! The store is a tree of named groups and entries (`tree`). A path of
//! slash-separated names is resolved against a group (`path`), and the
//! session keeps its location as a stack of group identifiers that `cd`-style
//! moves change as a whole or not at all (`state`). Lines are split into
//! words and parsed against a small closed grammar (`grammar`, `command`),
//! carried out on the session (`executor`) and turned into lines to print
//! and things to do (`display`). For the line editor, the library says
//! whether a line is a command and what may follow at the cursor
//! (`editor_helper`, `completion`), from name sets that are built once for
//! every group of the tree (`names`, `index`).

pub mod command;
pub mod completion;
pub mod display;
pub mod editor_helper;
pub mod executor;
pub mod grammar;
pub mod index;
pub mod names;
pub mod opt;
pub mod path;
pub mod state;
pub mod text;
pub mod tree;
