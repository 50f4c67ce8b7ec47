//! Execution core of the NEXUS shell: word expansion, command rendering,
//! heredoc collection and the command-dispatch decisions, each with a
//! contract over a mathematical model.

pub mod text;
pub mod env;
pub mod expand;
pub mod ast;
pub mod render;
pub mod heredoc;
pub mod collect;
pub mod script;
pub mod command;
pub mod cond;
pub mod process;
pub mod capture;
pub mod arith;
pub mod pipeline;
pub mod stages;
pub mod notices;
pub mod list;
pub mod laws;
pub mod redirect;
pub mod stage;
pub mod subshell;
pub mod background;
