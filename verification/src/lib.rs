//! Laver: the decision logic of a desktop office agent — message model,
//! error recovery, permissions, context compaction, prompt assembly, skills,
//! task graph, team protocol, scheduling and model profiles.

pub mod agent;
pub mod background;
pub mod constants;
pub mod cron;
pub mod design;
pub mod gateway;
pub mod ids;
pub mod mcp;
pub mod json;
pub mod llm;
pub mod model_provider;
pub mod paths;
pub mod tasks;
pub mod team;
pub mod text;
pub mod worktree;
