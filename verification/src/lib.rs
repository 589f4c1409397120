//! The verified core of a workflow runner: a script declares steps and starts
//! agents, each agent is a child process that streams JSON lines, and a terminal
//! front-end shows it all.
//!
//! Nothing here touches a file, a process, a terminal or a clock. Each module is
//! told what happened and answers with what to do, and its contracts say exactly
//! what that is:
//!
//! - [`cli`]: command line, printed lines, failure summary.
//! - [`codex`]: one agent's run, from permit to result, with retries and budget.
//! - [`engine`]: what a script's calls turn into; replay from the journal.
//! - [`event`]: the events that connect the others.
//! - [`journal`]: cache keys, journal lines, and reading them back.
//! - [`registry`]: agent types and their framing.
//! - [`render_opt`]: when to draw, what to repaint, how to wrap.
//! - [`tui`]: the front-end's state, panes and session.
//! - [`worktree`]: worktrees of isolated agents.
//! - [`json`], [`text`]: documents and characters.

pub mod cli;
pub mod codex;
pub mod engine;
pub mod event;
pub mod journal;
pub mod json;
pub mod registry;
pub mod render_opt;
pub mod text;
pub mod tui;
pub mod worktree;
