//! Out-of-process environment mutation: the command model and its wire
//! format, the policy of the transport channel, the plan that a profile
//! selection turns into, and the cache of the last selected profile.

pub mod cache;
pub mod json;
pub mod profile;
pub mod protocol;
pub mod text;
