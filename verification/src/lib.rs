//! The decisions behind an autonomous agent that works through a `todo.md`.

pub mod text;
pub mod text_lemmas;
pub mod scan;
pub mod patterns;
pub mod pattern_laws;
pub mod todo;
pub mod todo_laws;
pub mod prompt;
pub mod prompt_laws;
pub mod failure;
pub mod fetch;
pub mod runner;
pub mod agent;
pub mod agent_laws;
pub mod version;
