//! A modal task tracker core: editable input lines, a command grammar,
//! the mode controller that routes keys, the task store and the decisions
//! around saving and loading a project.

pub mod keys;
pub mod width;
pub mod input_bar;
pub mod command;
pub mod task;
pub mod gist;
pub mod config;
pub mod selection;
pub mod tracker;
pub mod table;
