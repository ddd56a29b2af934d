//! Builds the process-wide User-Agent string: a version number is extracted
//! from free-form text (or taken from a compile-time fallback supplied by the
//! caller), then composed with the running platform's operating system and
//! CPU architecture into `"antigravity/<version> <os>/<arch>"`.

pub mod agent;
pub mod version;

pub use agent::{build_user_agent, fetch_remote_version, UserAgentCache, VersionSource};
pub use version::{is_valid_version, parse_version};
