//! The interactive frontend: its state, its keys and what its screens show.

use vstd::prelude::*;
use crate::path::{self, NativePath};

pub mod form;
pub mod keys;
pub mod labels;
pub mod laws;
pub mod menus;
pub mod panels;
pub mod progress;
pub mod reactions;
pub mod review;
pub mod slots;
pub mod state;
pub mod style;

verus! {

/// What the frontend is started with.
#[derive(Debug)]
pub struct RunOptions {
    pub config_path: Option<NativePath>,
    pub source: Option<NativePath>,
}

impl Default for RunOptions {
    fn default() -> (r: Self)
        ensures
            r.config_path is None,
            r.source is None,
    {
        RunOptions { config_path: None, source: None }
    }
}

impl Clone for RunOptions {
    fn clone(&self) -> (r: Self)
        ensures
            path::opt_native(r.config_path) == path::opt_native(self.config_path),
            path::opt_native(r.source) == path::opt_native(self.source),
    {
        RunOptions {
            config_path: path::copy_opt_native(&self.config_path),
            source: path::copy_opt_native(&self.source),
        }
    }
}

} // verus!
