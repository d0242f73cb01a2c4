use vstd::prelude::*;

pub mod app;
pub mod archive;
pub mod keys;
pub mod managed_config;
pub mod rows;
pub mod selection;
pub mod targets;
pub mod text;
pub mod tmux;
pub mod tmux_ops;
pub mod ui;

verus! {
} // verus!
