//! Keeps a directory of users and user groups, pulled page by page from an
//! upstream API, in a shared key-value cache with a fixed time to live.
//!
//! The library decides; it performs no input or output. Every operation on
//! the cache or on the upstream API is a small state machine: it names the
//! next request to make, and is handed the reply.

pub mod cache;
pub mod directory;
pub mod error;
pub mod facade;
pub mod options;
pub mod ordered;
pub mod sync;
pub mod text;

pub use crate::cache::server::RedisServer;
pub use crate::cache::RedisResponse;
pub use crate::directory::users::get_slack_url_for_method;
pub use crate::directory::{SlackUser, SlackUserGroup, SlackUserId};
pub use crate::error::{CliErrors, RedisErrors, SlackErrors};
pub use crate::options::{LoggingOpts, UpdateRedisArgs, WebArgs};
