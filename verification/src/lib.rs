//! Traffic accounting for a host monitoring agent.
//!
//! The agent reports how much the host has sent and received in the current
//! billing period. The figure has to stay believable across restarts of the
//! process, reboots of the host, months of downtime and a damaged state
//! file. This crate holds the rules by which it does:
//!
//! - `network_saver`: the accounting engine, a state machine that is told
//!   what was read and answers with what is to be done;
//! - `calendar` and `clock`: when a billing period begins, and today's date;
//! - `runtime_data`: the counters that are kept on disk and the text of
//!   their file;
//! - `config` and `user_config`: the agent's settings and where its files
//!   are;
//! - `network_info`: the traffic record that carries its settings with it;
//! - `keyvalue`, `number` and `text`: the `key=value` format that all these
//!   files share, decimal notation, and text primitives.
//!
//! Every executable function is verified against a contract over plain
//! mathematical values. Reading files, the network and the timer are left
//! to the caller.

pub mod calendar;
pub mod clock;
pub mod config;
pub mod keyvalue;
pub mod network_info;
pub mod network_saver;
pub mod number;
pub mod runtime_data;
pub mod text;
pub mod user_config;
