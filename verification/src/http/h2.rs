//! HTTP/2 settings.

use crate::time::Duration;
use vstd::prelude::*;

verus! {

/// The HTTP/2 settings of a proxy.
#[derive(Clone, Copy, Debug, PartialEq, Eq)]
pub struct Settings {
    pub initial_stream_window_size: Option<u32>,
    pub initial_connection_window_size: Option<u32>,
    pub keepalive_timeout: Option<Duration>,
}

impl Default for Settings {
    fn default() -> (settings: Settings)
        ensures
            settings.initial_stream_window_size is None,
            settings.initial_connection_window_size is None,
            settings.keepalive_timeout is None,
    {
        Settings {
            initial_stream_window_size: None,
            initial_connection_window_size: None,
            keepalive_timeout: None,
        }
    }
}

} // verus!
