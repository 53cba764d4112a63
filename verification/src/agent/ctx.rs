//! What a tool call carries about where it runs.

use vstd::prelude::*;

use crate::agent::tools::AgentKind;
use crate::paths::{resolve_path, resolved_path};

verus! {

/// The environment of a tool call: who calls, the user's workspace and the
/// directory the call runs in (a worktree's, when one is bound).
#[derive(Debug, Clone)]
pub struct ToolCtx {
    pub session_id: String,
    pub agent_name: String,
    pub kind: AgentKind,
    pub workspace: String,
    pub cwd: String,
}

impl ToolCtx {
    /// Resolves a path argument: absolute as it is, relative under `cwd`,
    /// normalised without touching the disk; the flag tells whether it lies in
    /// the workspace or under `cwd`.
    pub fn resolve_path(&self, p: &str) -> (r: (String, bool))
        ensures
            (r.0@, r.1) == resolved_path(self.workspace@, self.cwd@, p@),
    {
        resolve_path(self.workspace.as_str(), self.cwd.as_str(), p)
    }
}

} // verus!
