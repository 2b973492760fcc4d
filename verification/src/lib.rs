//! The logic of a long-term memory server: what each request asks of the engine, what it is
//! answered with, and the rules in between. Every function is proved to do what it states, but for
//! the few that call outside crates: each of those says what it takes for granted.
//!
//! - [`container_tag`] maps a container tag to an actor and its scopes, and back.
//! - [`filter`] is the metadata-filter language.
//! - [`query`], [`documents`], [`memories`], [`memory_tool`], [`directory`] and [`mcp`] are the
//!   endpoints: each plans the calls of the engine and frames the answers.
//! - [`auth`], [`keys`] and [`rate_limit`] decide who may ask, and how often.
//! - [`store`] holds the erasure of an actor, and [`config`] what is set from outside.
//! - [`calls`], [`request`] and [`error`] are shared by the endpoints; [`text`], [`number`],
//!   [`json`], [`ident`], [`time`] and [`score`] are the values they work on.

pub mod auth;
pub mod calls;
pub mod config;
pub mod container_tag;
pub mod directory;
pub mod documents;
pub mod error;
pub mod filter;
pub mod ident;
pub mod json;
pub mod keys;
pub mod mcp;
pub mod memories;
pub mod memory_tool;
pub mod number;
pub mod query;
pub mod rate_limit;
pub mod request;
pub mod score;
pub mod store;
pub mod text;
pub mod time;

pub use config::{check_bind_safety, db_max_connections};
pub use container_tag::{parse_container_tag, reconstruct_container_tag, Scope};
pub use rate_limit::RateLimiter;
