//! Campus network auto-login: the verified decision logic of the tray
//! application (settings rules, URL handling, pause windows, login backoff
//! and the monitor's state machine).

pub mod credentials;
pub mod monitor;
pub mod monitor_laws;
pub mod network;
pub mod settings;
pub mod settings_laws;
pub mod startup;
pub mod text;
pub mod time_utils;
pub mod ui;

use vstd::prelude::*;

verus! {

/// Result type used across the library: errors are user-facing messages.
pub type AppResult<T> = Result<T, String>;

} // verus!
