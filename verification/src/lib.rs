use vstd::prelude::*;

pub mod app;
pub mod driver;
pub mod format;
pub mod laws;
pub mod listing;
pub mod names;
pub mod runtime;
pub mod snapshot;
pub mod state;
pub mod text;
pub mod theme;
pub mod ui;
