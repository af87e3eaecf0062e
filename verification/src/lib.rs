//! The robot side of an agent loop.
//!
//! A loop runs an agent through the Agent Client Protocol and talks to a human
//! through files in its workspace.
//!
//! - [`acp_executor`] and [`session`]: one prompt turn of an agent, from the agent's
//!   notifications to the result of the turn. [`turn_laws`] says what a turn promises.
//! - [`terminal`] and [`cleanup`]: the commands that run on the agent's behalf.
//!   [`terminal_model`] says what each step does to them, [`terminal_step_laws`] what
//!   each step promises by itself, and [`terminal_laws`] what holds whatever happens.
//!   [`output`] keeps and shows what a command puts out, [`exit_status`] says how it
//!   ended, [`process_group`] how it is made to end, and [`acp_error`] what a request that
//!   fails is answered with.
//! - [`web_robot`]: the loop's side of the conversation with a human, and
//!   [`robot_domain`] the human's, through the files of [`api_files`]. [`robot_laws`]
//!   says what the two sides promise each other, [`protocol_laws`] what each step promises
//!   by itself, and [`document_laws`] what stands in the files.
//! - [`json`], [`codec`], [`paths`], [`text`] and [`clock`]: what the others are made of.
//!
//! Nothing here reads or writes a file, starts a process or waits. The functions take
//! what was read and say what is to be done.

pub mod acp_error;
pub mod acp_executor;
pub mod api_files;
pub mod cleanup;
pub mod clock;
pub mod codec;
pub mod document_laws;
pub mod exit_status;
pub mod json;
pub mod output;
pub mod paths;
pub mod process_group;
pub mod protocol_laws;
pub mod robot_domain;
pub mod robot_laws;
pub mod session;
pub mod terminal;
pub mod terminal_laws;
pub mod terminal_model;
pub mod terminal_step_laws;
pub mod text;
pub mod turn_laws;
pub mod web_robot;
