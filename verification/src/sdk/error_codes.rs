//! Stable error codes, as they stand in `PluginError::code`. The runtime
//! matches on these texts.

use vstd::prelude::*;

verus! {

pub const UNSUPPORTED_SCOPE: &'static str = "unsupported_scope";

pub const INVALID_REQUEST: &'static str = "invalid_request";

pub const NOT_IMPLEMENTED: &'static str = "not_implemented";

pub const UNKNOWN_ID: &'static str = "unknown_id";

pub const RATE_LIMITED: &'static str = "rate_limited";

pub const TRANSIENT: &'static str = "transient";

pub const REMOTE_ERROR: &'static str = "remote_error";

pub const PARSE_ERROR: &'static str = "parse_error";

} // verus!
