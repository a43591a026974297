//! Verified core of a command-line client for a hosted configuration and secrets service.
//!
//! - `time`: as-of texts read as a point in time or as a tag name.
//! - `environments`, `resolver`: the environment tree, names to ids, ancestors and tags.
//! - `details`: one flat record per parameter in an environment, and its properties.
//! - `diff`: which two sides are compared and which rows differ.
//! - `parameters`, `listing`, `audit`: the decisions of the parameter and audit commands.
//! - `table`: the output table in its four formats.
//! - `messages`, `cli`: the texts shown, argument checks, the confirmation dialogue.
//! - `profiles`: configuration profiles and the precedence of flags and variables.
//! - `models`: the records exchanged with the service.
//! - `order`, `text`: stable ordering and text helpers.
pub mod audit;
pub mod cli;
pub mod details;
pub mod diff;
pub mod environments;
pub mod listing;
pub mod messages;
pub mod models;
pub mod order;
pub mod parameters;
pub mod profiles;
pub mod resolver;
pub mod table;
pub mod text;
pub mod time;
