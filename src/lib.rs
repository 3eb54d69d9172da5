//! A front end for host WiFi management that delegates the radio work to a
//! network backend program.
//!
//! The library builds the argument vector of every backend invocation,
//! reads the bytes that the backend prints, correlates the two listings
//! of a network scan, and builds and resolves the interactive selection menus.
//! Running the backend program and talking to the terminal is left to the
//! caller: every operation is a small state machine ([`Step`]) that asks for
//! one invocation at a time.
//!
//! Backends implement [`Wl`]; [`Nmcli`] drives NetworkManager's `nmcli`.

pub mod adapter;
pub mod api;
pub mod bytes;
pub mod connect;
pub mod disconnect;
pub mod nmcli;
pub mod scan;
pub mod select;
pub mod status;

pub use adapter::{
    new, Decimal, Error as NetworkAdapterError, Failure, Step, Wl, DEFAULT_EXIT_CODE,
    MAX_SIGNAL_STRENGTH,
};
pub use bytes::{CARRIAGE_RETURN, LINE_FEED};
pub use connect::{
    connect_prompt, needs_password, password_from, password_prompt, scan_candidates, select_ssid,
    ssid_scan_args, Error as ConnectError,
};
pub use disconnect::{
    active_candidates, disconnect_prompt, select_active_ssid, Error as DisconnectError,
    LOOPBACK_INTERFACE_NAME,
};
pub use nmcli::{filter_scan, Nmcli, Stage};
pub use scan::{scan, Error as ScanError};
pub use status::{connected_networks, status_line};
