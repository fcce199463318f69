//! Shell-style pipelines without a shell: stages, chains of stages joined by
//! pipes, and groups of chains that share a working directory.
//!
//! The library decides; the program around it acts. Every choice the engine
//! makes (how a stage is resolved, what its three streams are bound to, when a
//! chain stops starting stages, what a chain or a group finally yields) is a
//! verified function over plain values. Creating pipes, opening files and
//! starting processes or threads is left to the driver, which performs the
//! step it is handed and reports what happened.

/// Text helpers: joining, trimming, `KEY=VALUE`.
pub mod text;
/// Errors and result types.
pub mod error;
/// Variable overrides of a stage.
pub mod vars;
/// The registry of builtin commands.
pub mod registry;
/// Redirect directives and the bindings of a stage's streams.
pub mod redirect;
/// The stock builtin commands.
pub mod builtins;
/// The execution context of a builtin command.
pub mod env;
/// The working directory and the rule for changing it.
pub mod dir;
/// A stage: one command of a chain.
pub mod stage;
/// A chain of stages, and its run step by step.
pub mod chain;
/// A group of chains that run in sequence.
pub mod group;
/// The settings kept in the process environment.
pub mod settings;
/// An argument in the making.
pub mod cmd_string;
/// The scanner of the command language.
pub mod lexer;
/// A chain driven to its end, as a whole.
pub mod drive;
