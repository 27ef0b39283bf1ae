//! Personal cloud-sync backend core: a versioned document store with
//! optimistic concurrency control, a scoped-token trust hierarchy, and a
//! change-notification fanout.

use vstd::prelude::*;

pub mod api;
pub mod auth;
pub mod config;
pub mod device_codes;
pub mod notifications;
pub mod store;
pub mod txn;

verus! {

/// How long user tokens live, in seconds.
pub const USER_TOKEN_EXPIRATION: u64 = 24 * 60 * 60;

/// How long file access tokens live, in seconds.
pub const FILE_ACCESS_EXPIRATION: i64 = 20 * 60;

/// How long device codes are valid, in seconds.
pub const DEVICE_CODE_EXPIRATION: i64 = 5 * 60;

/// How long deleted files are kept before they are purged, in seconds.
pub const DELETED_FILE_EXPIRATION: i64 = 30 * 24 * 60 * 60;

/// Length of a device pairing code.
pub const DEVICE_CODE_LEN: usize = 8;

/// How often a live session pings its peer, in seconds.
pub const WEBSOCKET_HEARTBEAT_INTERVAL: i64 = 20;

/// How long a live session may stay silent before it is dropped, in seconds.
pub const WEBSOCKET_CLIENT_TIMEOUT: i64 = 40;

} // verus!
