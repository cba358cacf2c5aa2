//! The logic of a desktop window for a coding agent.
//!
//! What the window is asked for, the settings, skills, servers and scheduled tasks of the
//! user, and what comes back from `git`, from a browser or from a language model are plain
//! values here. The functions decide on them and say what is to be done; reading files,
//! running processes and talking to the network is left to the program around them.
//!
//! Texts are modelled as sequences of characters, paths as a base and the names below it,
//! and JSON as a tree. Functions that depend on the clock or on a directory of the machine
//! have a sibling that takes what the machine said as an argument.

pub mod automation;
pub mod browser;
pub mod bytes;
pub mod chat;
pub mod clock;
pub mod data_url;
pub mod delivery;
pub mod emit;
pub mod events;
pub mod git_status;
pub mod git_task;
pub mod json;
pub mod json_text;
pub mod mcp_config;
pub mod mcp_test;
pub mod memory;
pub mod new_skill;
pub mod number;
pub mod paths;
pub mod plan;
pub mod redact;
pub mod request;
pub mod runtime;
pub mod schedule;
pub mod script;
pub mod search;
pub mod secrets;
pub mod settings;
pub mod skills;
pub mod slug;
pub mod split;
pub mod start;
pub mod stream;
pub mod target;
pub mod terminal;
pub mod text;
