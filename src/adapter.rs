//! What every network backend offers, and what its operations hand back.

use vstd::prelude::*;

use crate::api::ScanArgs;
use crate::bytes::{
    all_digits, ascii, concat, decimal_text, decimal_value, digits_of, is_digit, join_lines,
    lines_of, text, views,
};
use crate::nmcli::{Nmcli, Stage};

verus! {

/// The exit code reported for a backend that gave none.
pub const DEFAULT_EXIT_CODE: i32 = 1;

/// A backend invocation that did not succeed: its diagnostic text and its
/// exit code.
pub struct Failure {
    pub message: Vec<u8>,
    pub code: i32,
}

impl Failure {
    /// The failure of an invocation that exited with `code`, when the
    /// process reported one, after printing `stderr`; the diagnostic is the
    /// printed text with its line breaks taken out.
    pub fn from_exit(stderr: &[u8], code: Option<i32>) -> (r: Failure)
        ensures
            r.message@ == concat(lines_of(stderr@)),
            r.code == (match code {
                Some(c) => c,
                None => DEFAULT_EXIT_CODE,
            }),
    {
        let code = match code {
            Some(c) => c,
            None => DEFAULT_EXIT_CODE,
        };
        Failure { message: join_lines(stderr), code }
    }

    /// The failure of an invocation that could not be started.
    pub fn not_started(message: Vec<u8>) -> (r: Failure)
        ensures
            r.message == message,
            r.code == DEFAULT_EXIT_CODE,
    {
        Failure { message, code: DEFAULT_EXIT_CODE }
    }
}

/// The strongest signal that a network can have.
pub const MAX_SIGNAL_STRENGTH: u8 = 100;

/// The errors of the backend operations: one kind per operation, each with
/// the failure of the invocation behind it, and the refusal of a scan floor
/// above [`MAX_SIGNAL_STRENGTH`], which no invocation is behind.
pub enum Error {
    CannotGetWiFiStatus(Failure),
    CannotToggleWiFi(Failure),
    CannotListNetworks(Failure),
    CannotGetActiveConnections(Failure),
    CannotGetSSIDStatus(Failure),
    CannotDisconnect(Failure),
    CannotScanWiFi(Failure),
    CannotConnect(Failure),
    InvalidSignalStrength(u8),
}

impl Error {
    /// The failed invocation behind the error, if one is.
    pub open spec fn failure(self) -> Option<Failure> {
        match self {
            Error::CannotGetWiFiStatus(f) => Some(f),
            Error::CannotToggleWiFi(f) => Some(f),
            Error::CannotListNetworks(f) => Some(f),
            Error::CannotGetActiveConnections(f) => Some(f),
            Error::CannotGetSSIDStatus(f) => Some(f),
            Error::CannotDisconnect(f) => Some(f),
            Error::CannotScanWiFi(f) => Some(f),
            Error::CannotConnect(f) => Some(f),
            Error::InvalidSignalStrength(_) => None,
        }
    }

    /// What the failed operation was about.
    pub open spec fn context(self) -> Seq<char> {
        match self {
            Error::CannotGetWiFiStatus(_) => "unable to get the WiFi status: "@,
            Error::CannotToggleWiFi(_) => "unable to toggle WiFi: "@,
            Error::CannotListNetworks(_) => "unable to list the networks: "@,
            Error::CannotGetActiveConnections(_) => "unable to get the active connections: "@,
            Error::CannotGetSSIDStatus(_) => "unable to get the SSID status: "@,
            Error::CannotDisconnect(_) => "unable to disconnect: "@,
            Error::CannotScanWiFi(_) => "unable to scan the available networks: "@,
            Error::CannotConnect(_) => "unable to connect to the network: "@,
            Error::InvalidSignalStrength(_) => "the given signal strength "@,
        }
    }

    /// The exit code that the backend reported, or [`DEFAULT_EXIT_CODE`]
    /// when no invocation is behind the error.
    pub fn exit_code(&self) -> (r: i32)
        ensures
            r == (match self.failure() {
                Some(f) => f.code,
                None => DEFAULT_EXIT_CODE,
            }),
    {
        match self {
            Error::CannotGetWiFiStatus(f) => f.code,
            Error::CannotToggleWiFi(f) => f.code,
            Error::CannotListNetworks(f) => f.code,
            Error::CannotGetActiveConnections(f) => f.code,
            Error::CannotGetSSIDStatus(f) => f.code,
            Error::CannotDisconnect(f) => f.code,
            Error::CannotScanWiFi(f) => f.code,
            Error::CannotConnect(f) => f.code,
            Error::InvalidSignalStrength(_) => DEFAULT_EXIT_CODE,
        }
    }

    /// The text shown for the error: its context, then the backend's
    /// diagnostic, or the refused floor and the allowed range.
    pub fn message(&self) -> (r: Vec<u8>)
        ensures
            r@ == (match self {
                Error::InvalidSignalStrength(s) => ascii(self.context()) + digits_of(*s as nat)
                    + ascii(" is not in limits (0..100)"@),
                _ => ascii(self.context()) + self.failure()->0.message@,
            }),
    {
        let (mut r, f) = match self {
            Error::CannotGetWiFiStatus(f) => {
                proof { reveal_strlit("unable to get the WiFi status: "); }
                (text("unable to get the WiFi status: "), f)
            },
            Error::CannotToggleWiFi(f) => {
                proof { reveal_strlit("unable to toggle WiFi: "); }
                (text("unable to toggle WiFi: "), f)
            },
            Error::CannotListNetworks(f) => {
                proof { reveal_strlit("unable to list the networks: "); }
                (text("unable to list the networks: "), f)
            },
            Error::CannotGetActiveConnections(f) => {
                proof { reveal_strlit("unable to get the active connections: "); }
                (text("unable to get the active connections: "), f)
            },
            Error::CannotGetSSIDStatus(f) => {
                proof { reveal_strlit("unable to get the SSID status: "); }
                (text("unable to get the SSID status: "), f)
            },
            Error::CannotDisconnect(f) => {
                proof { reveal_strlit("unable to disconnect: "); }
                (text("unable to disconnect: "), f)
            },
            Error::CannotScanWiFi(f) => {
                proof { reveal_strlit("unable to scan the available networks: "); }
                (text("unable to scan the available networks: "), f)
            },
            Error::CannotConnect(f) => {
                proof { reveal_strlit("unable to connect to the network: "); }
                (text("unable to connect to the network: "), f)
            },
            Error::InvalidSignalStrength(s) => {
                proof {
                    reveal_strlit("the given signal strength ");
                    reveal_strlit(" is not in limits (0..100)");
                }
                let mut r = text("the given signal strength ");
                let mut n = decimal_text(*s as usize);
                r.append(&mut n);
                let mut tail = text(" is not in limits (0..100)");
                r.append(&mut tail);
                return r;
            },
        };
        r.extend_from_slice(f.message.as_slice());
        r
    }
}

/// A number written in decimal digits that fits in a byte.
pub struct Decimal(u8);

impl View for Decimal {
    type V = nat;

    closed spec fn view(&self) -> nat {
        self.0 as nat
    }
}

impl Decimal {
    /// Reads `digits` as an unsigned decimal number: every byte must be an
    /// ASCII digit (the empty string reads as zero) and the value must fit in
    /// a byte.
    pub fn parse(digits: &[u8]) -> (r: Option<Decimal>)
        ensures
            r is Some <==> all_digits(digits@) && decimal_value(digits@) <= 255,
            r matches Some(d) ==> d@ == decimal_value(digits@),
    {
        let mut acc: u16 = 0;
        let mut i: usize = 0;
        assert(digits@.subrange(0, 0) =~= Seq::<u8>::empty());
        while i < digits.len()
            invariant
                i <= digits@.len(),
                all_digits(digits@.subrange(0, i as int)),
                acc <= 256,
                acc == (if decimal_value(digits@.subrange(0, i as int)) <= 255 {
                    decimal_value(digits@.subrange(0, i as int))
                } else {
                    256
                }),
            decreases digits.len() - i,
        {
            let b = digits[i];
            if b < 48 || b > 57 {
                assert(!is_digit(digits@[i as int]));
                return None;
            }
            let ghost prev = digits@.subrange(0, i as int);
            assert(digits@.subrange(0, i + 1).drop_last() =~= prev);
            let d: u16 = (b - 48) as u16;
            acc = if acc * 10 + d > 255 { 256 } else { acc * 10 + d };
            i += 1;
        }
        assert(digits@.subrange(0, i as int) =~= digits@);
        if acc > 255 {
            None
        } else {
            Some(Decimal(acc as u8))
        }
    }

    /// The number.
    pub fn inner(&self) -> (r: u8)
        ensures
            r as nat == self@,
    {
        self.0
    }
}

/// What an operation asks of its caller next.
pub enum Step {
    /// Run the backend program with `args`, then hand its outcome back to
    /// the backend's `resume` together with `stage`.
    Run { args: Vec<Vec<u8>>, stage: Stage },
    /// The operation is over and produced this output.
    Output(Result<Vec<u8>, Error>),
    /// The operation is over and produced this answer.
    Answer(Result<bool, Error>),
}

impl Step {
    /// The step runs the backend with exactly these arguments.
    pub open spec fn runs(self, args: Seq<Seq<u8>>) -> bool {
        self matches Step::Run { args: a, .. } && views(a@) == args
    }

    /// The step ends the operation with this output.
    pub open spec fn outputs(self, out: Seq<u8>) -> bool {
        self matches Step::Output(Ok(v)) && v@ == out
    }

    /// The step ends the operation with an error, without running anything.
    pub open spec fn fails(self) -> bool {
        self matches Step::Output(Err(_)) || self matches Step::Answer(Err(_))
    }
}

/// Starts an adapter for the backend of this host.
pub fn new() -> (r: Nmcli) {
    Nmcli::new()
}

/// The operations that every network backend offers.
///
/// A backend never runs a program itself: each operation starts with a
/// [`Step`], and each [`Step::Run`] asks the caller to run the backend program
/// and to hand the outcome to [`Wl::resume`], until the operation ends with an
/// output or an answer.
///
/// Outputs in a terse format use [`Wl::get_field_separator`] between fields;
/// the others are meant for people and carry no structure.
pub trait Wl {
    /// The byte between the fields of a terse output.
    fn get_field_separator(&self) -> u8;

    /// The WiFi status, for people, on one line.
    fn get_wifi_status(&self) -> Step;

    /// Switches WiFi on or off; the output is the new status, for people.
    fn toggle_wifi(&self) -> Step;

    /// The known networks, for people; only the active ones with
    /// `show_active`, only their names with `show_ssid`.
    fn list_networks(&self, show_active: bool, show_ssid: bool) -> Step;

    /// The active connections as SSID and device, terse, one per line.
    fn get_active_ssid_dev_pairs(&self) -> Step;

    /// The SSIDs of the active connections, terse, one per line.
    fn get_active_ssids(&self) -> Step;

    /// Disconnects from `ssid`; with `forget`, also deletes its profile.
    fn disconnect(&self, ssid: &[u8], forget: bool) -> Step;

    /// The networks in range, shaped by `args`; a floor above
    /// [`MAX_SIGNAL_STRENGTH`] is refused before anything runs.
    fn scan(&self, args: &ScanArgs) -> Step;

    /// Answers whether `ssid` is a known network.
    fn is_known_ssid(&self, ssid: &[u8]) -> Step;

    /// Connects to `ssid`, with a new password or with its known profile.
    fn connect(&self, ssid: &[u8], passwd: Option<&[u8]>, is_known_ssid: bool) -> Step;

    /// Goes on with an operation once the invocation that `stage` waited for
    /// has ended with `outcome`.
    fn resume(&self, stage: Stage, outcome: Result<Vec<u8>, Failure>) -> Step;
}

} // verus!
