//! Hooks: cross-cutting logic around the agent loop, at four points (before a
//! prompt goes to the model, before and after a tool runs, before stopping).

use vstd::prelude::*;

verus! {

/// The points at which hooks run.
#[derive(Debug, Clone, Copy, PartialEq, Eq, Structural)]
pub enum HookEvent {
    UserPromptSubmit,
    PreToolUse,
    PostToolUse,
    Stop,
}

/// What a pre-tool hook decides.
#[derive(Debug, Clone)]
pub enum PreToolOutcome {
    /// Let the tool run.
    Continue,
    /// Do not run it; this text becomes its (error) result.
    Block(String),
}

/// What a stop hook decides.
#[derive(Debug, Clone)]
pub enum StopOutcome {
    /// Stopping is allowed.
    Allow,
    /// Keep going, with this user message.
    Continue(String),
}

/// Extra context for a submitted prompt.
#[derive(Debug, Clone)]
pub struct PromptContext {
    /// Blocks put before the user's input.
    pub prepend: Vec<String>,
}

impl Default for PromptContext {
    fn default() -> (r: PromptContext)
        ensures
            r.prepend@.len() == 0,
    {
        PromptContext { prepend: Vec::new() }
    }
}

/// The registry of hooks.
pub struct HookRegistry;

impl HookRegistry {
    /// An empty registry.
    pub fn new() -> (r: HookRegistry) {
        HookRegistry
    }

    /// The context added to a submitted prompt: nothing is added by default.
    pub fn on_user_prompt(&self, prompt: &str) -> (r: PromptContext)
        ensures
            r.prepend@.len() == 0,
    {
        PromptContext::default()
    }

    /// The hook after a tool ran; only meant for `PostToolUse`.
    pub fn on_post_tool(&self, event: HookEvent, tool: &str, ok: bool)
        requires
            event == HookEvent::PostToolUse,
    {
    }
}

impl Default for HookRegistry {
    fn default() -> (r: HookRegistry) {
        HookRegistry::new()
    }
}

} // verus!
