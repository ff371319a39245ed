//! Workspaces.
//!
//! A workspace combines the context of a project and its configuration.

use vstd::prelude::*;

use crate::config::Config;
use crate::context::Context;

verus! {

/// Combines [`Context`] and [`Config`] into one structure.
#[derive(Debug)]
pub struct Workspace {
    /// The context of the workspace.
    pub context: Context,
    /// The config of the workspace.
    pub config: Config,
}

impl Workspace {
    /// Constructs [`Self`].
    pub fn new(context: Context, config: Config) -> (workspace: Self)
        ensures
            workspace.context == context,
            workspace.config == config,
    {
        Self { context, config }
    }
}

/// Represents `tool` sections in `pyproject.toml` files.
#[derive(Debug)]
pub struct Tools {
    /// The `changelogging` section.
    pub changelogging: Option<Workspace>,
}

/// Represents structures of `pyproject.toml` files.
#[derive(Debug)]
pub struct PyProject {
    /// The `tool` section.
    pub tool: Option<Tools>,
}

impl PyProject {
    /// Converts [`Self`] to [`Workspace`], provided that the `tool.changelogging` table is present.
    pub fn into_workspace(self) -> (workspace: Option<Workspace>)
        ensures
            workspace == match self.tool {
                Some(tools) => tools.changelogging,
                None => None,
            },
    {
        match self.tool {
            Some(tools) => tools.changelogging,
            None => None,
        }
    }
}

} // verus!
