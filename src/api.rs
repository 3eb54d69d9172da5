//! The commands and options that the program's front end hands to the
//! library, already parsed and validated.

use vstd::prelude::*;

verus! {

/// The parsed command line.
pub struct Args {
    /// The command to run; with none given, the WiFi status is shown.
    pub wl_command: Option<WlCommand>,
}

/// The commands of the front end.
pub enum WlCommand {
    /// Show the WiFi status and the connected networks.
    Status,
    /// Switch WiFi on or off.
    Toggle,
    /// List the networks in range.
    Scan { args: ScanArgs },
    /// Connect to a network, choosing one interactively when no SSID is given.
    Connect { ssid: Option<String>, force_passwd: bool },
    /// Disconnect from a network, choosing one interactively when no SSID is
    /// given; `forget` also deletes its profile.
    Disconnect { forget: bool, ssid: Option<String> },
    /// List the known networks.
    ListNetworks { show_active: bool, show_ssid: bool },
}

/// How a network scan is run and shown.
pub struct ScanArgs {
    /// The weakest signal strength (0 to 100) that a listed network may have.
    pub min_strength: u8,
    /// Make the backend refresh its list of networks first.
    pub re_scan: bool,
    /// Show only these columns, with a header line.
    pub columns: Option<String>,
    /// Show only the values of these fields, without a header line; ignored
    /// when `columns` is given.
    pub get_values: Option<String>,
}

impl Args {
    /// The command to run: the one given, or the status by default.
    pub fn command(self) -> (r: WlCommand)
        ensures
            r == (match self.wl_command {
                Some(c) => c,
                None => WlCommand::Status,
            }),
    {
        match self.wl_command {
            Some(c) => c,
            None => WlCommand::Status,
        }
    }
}

} // verus!
