//! The backend that drives NetworkManager's command line client, `nmcli`.

use vstd::prelude::*;
use vstd::slice::slice_to_vec;
use vstd::utf8::encode_utf8;

use crate::adapter::{Error, Failure, Step, Wl, MAX_SIGNAL_STRENGTH};
use crate::api::ScanArgs;
use crate::bytes::{
    all_digits, ascii, bytes_eq, concat, decimal_value, join_lines, lines, lines_of,
    string_bytes, terminated, text, views, LINE_FEED,
};
use crate::adapter::Decimal;

verus! {

/// The adapter for `nmcli`. It holds no state: one value can serve any
/// number of operations.
pub struct Nmcli;

/// Where an operation of [`Nmcli`] stands while an invocation runs.
pub enum Stage {
    /// Waiting for the WiFi status.
    WifiStatus,
    /// Waiting for the WiFi status, in order to toggle it.
    ToggleQuery,
    /// Waiting for the radio to be switched on (`enable`) or off.
    ToggleRadio { enable: bool },
    /// Waiting for the list of known networks.
    ListNetworks,
    /// Waiting for the SSID and device of the active connections.
    ActivePairs,
    /// Waiting for the SSIDs of the active connections.
    ActiveSsids,
    /// Waiting for the names of the known networks, to look for `ssid`.
    KnownSsid { ssid: Vec<u8> },
    /// Waiting for a disconnection.
    Disconnect,
    /// Waiting for the listing of a scan.
    ScanListing { min_strength: u8 },
    /// Waiting for the signal strengths that go with `listing`.
    ScanSignals { min_strength: u8, listing: Vec<u8> },
    /// Waiting for the old profile of `ssid` to be deleted before connecting
    /// with `passwd`.
    Forget { ssid: Vec<u8>, passwd: Vec<u8> },
    /// Waiting for a connection.
    Connect,
}

/// Arguments that query the WiFi status.
pub open spec fn status_args() -> Seq<Seq<u8>> {
    seq![ascii("-g"@), ascii("WIFI"@), ascii("g"@)]
}

/// Arguments that switch the radio on or off.
pub open spec fn radio_args(enable: bool) -> Seq<Seq<u8>> {
    seq![ascii("radio"@), ascii("wifi"@), if enable { ascii("on"@) } else { ascii("off"@) }]
}

/// Arguments that list the known networks.
pub open spec fn list_args(show_active: bool, show_ssid: bool) -> Seq<Seq<u8>> {
    (if show_ssid { seq![ascii("--fields"@), ascii("NAME"@)] } else { Seq::empty() })
        + seq![ascii("connection"@), ascii("show"@)]
        + (if show_active { seq![ascii("--active"@)] } else { Seq::empty() })
}

/// Arguments that list the active connections as terse SSID and device.
pub open spec fn pairs_args() -> Seq<Seq<u8>> {
    seq![ascii("-g"@), ascii("NAME,DEVICE"@), ascii("connection"@), ascii("show"@), ascii("--active"@)]
}

/// Arguments that list the SSIDs of the active connections, terse.
pub open spec fn active_ssids_args() -> Seq<Seq<u8>> {
    seq![ascii("-g"@), ascii("NAME"@), ascii("connection"@), ascii("show"@), ascii("--active"@)]
}

/// Arguments that list the names of all known networks, terse.
pub open spec fn known_args() -> Seq<Seq<u8>> {
    seq![ascii("-g"@), ascii("NAME"@), ascii("connection"@), ascii("show"@)]
}

/// Arguments that delete the profile of `ssid` (`forget`) or only bring it
/// down.
pub open spec fn disconnect_args(ssid: Seq<u8>, forget: bool) -> Seq<Seq<u8>> {
    seq![
        ascii("connection"@),
        if forget { ascii("delete"@) } else { ascii("down"@) },
        ascii("id"@),
        ssid,
    ]
}

/// The options that pick the format of a scan: the columns if given, else
/// the terse fields if given, else none.
pub open spec fn format_args(args: ScanArgs) -> Seq<Seq<u8>> {
    match args.columns {
        Some(c) => seq![ascii("-f"@), encode_utf8(c@)],
        None => match args.get_values {
            Some(v) => seq![ascii("-g"@), encode_utf8(v@)],
            None => Seq::empty(),
        },
    }
}

/// Arguments of the listing of a scan.
pub open spec fn listing_args(args: ScanArgs) -> Seq<Seq<u8>> {
    format_args(args) + seq![ascii("d"@), ascii("wifi"@), ascii("list"@)] + (if args.re_scan {
        seq![ascii("--rescan"@), ascii("yes"@)]
    } else {
        Seq::empty()
    })
}

/// Arguments that list the signal strength of every network in range, terse.
pub open spec fn signal_args() -> Seq<Seq<u8>> {
    seq![ascii("-g"@), ascii("SIGNAL"@), ascii("d"@), ascii("wifi"@), ascii("list"@)]
}

/// Arguments that connect to `ssid` with a password, or bring its known
/// profile up.
pub open spec fn connect_args(ssid: Seq<u8>, passwd: Option<Seq<u8>>) -> Seq<Seq<u8>> {
    match passwd {
        Some(p) => seq![
            ascii("d"@),
            ascii("wifi"@),
            ascii("connect"@),
            ssid,
            ascii("password"@),
            p,
        ],
        None => seq![ascii("connection"@), ascii("up"@), ascii("id"@), ssid],
    }
}

/// The contents of an optional byte string.
pub open spec fn opt_view(b: Option<&[u8]>) -> Option<Seq<u8>> {
    match b {
        Some(v) => Some(v@),
        None => None,
    }
}

/// A signal line that reads as a number of at least `min`.
pub open spec fn signal_reaches(line: Seq<u8>, min: u8) -> bool {
    all_digits(line) && decimal_value(line) <= 255 && decimal_value(line) >= min
}

/// Whether row `j` of a scan listing is shown: the header row always, data
/// row `j` when signal line `j - 1` reaches `min`.
pub open spec fn row_kept(signals: Seq<Seq<u8>>, min: u8, j: int) -> bool {
    j == 0 || (1 <= j <= signals.len() && signal_reaches(signals[j - 1], min))
}

/// The rows of a scan listing that are shown, in order.
pub open spec fn kept_rows(rows: Seq<Seq<u8>>, signals: Seq<Seq<u8>>, min: u8) -> Seq<Seq<u8>>
    decreases rows.len(),
{
    if rows.len() == 0 {
        Seq::empty()
    } else {
        let prev = kept_rows(rows.drop_last(), signals, min);
        if row_kept(signals, min, rows.len() - 1) {
            prev.push(rows.last())
        } else {
            prev
        }
    }
}

/// What a scan shows, given the listing and the signal strengths that the
/// backend printed.
pub open spec fn filtered_scan(listing: Seq<u8>, signals: Seq<u8>, min: u8) -> Seq<u8> {
    terminated(kept_rows(lines_of(listing), lines_of(signals), min))
}

/// How an operation goes on from `stage` once its invocation ended with
/// `outcome`.
pub open spec fn resumed(stage: Stage, outcome: Result<Vec<u8>, Failure>, r: Step) -> bool {
    match stage {
        Stage::WifiStatus => match outcome {
            Ok(out) => r.outputs(concat(lines_of(out@))),
            Err(f) => r == Step::Output(Err(Error::CannotGetWiFiStatus(f))),
        },
        Stage::ToggleQuery => match outcome {
            Ok(out) => {
                let enable = concat(lines_of(out@)) != ascii("enabled"@);
                r.runs(radio_args(enable)) && r->stage == Stage::ToggleRadio { enable }
            },
            Err(f) => r == Step::Output(Err(Error::CannotGetWiFiStatus(f))),
        },
        Stage::ToggleRadio { enable } => match outcome {
            Ok(_) => r.outputs(if enable { ascii("enabled"@) } else { ascii("disabled"@) }),
            Err(f) => r == Step::Output(Err(Error::CannotToggleWiFi(f))),
        },
        Stage::ListNetworks => match outcome {
            Ok(out) => r == Step::Output(Ok(out)),
            Err(f) => r == Step::Output(Err(Error::CannotListNetworks(f))),
        },
        Stage::ActivePairs => match outcome {
            Ok(out) => r == Step::Output(Ok(out)),
            Err(f) => r == Step::Output(Err(Error::CannotGetActiveConnections(f))),
        },
        Stage::ActiveSsids => match outcome {
            Ok(out) => r == Step::Output(Ok(out)),
            Err(f) => r == Step::Output(Err(Error::CannotGetSSIDStatus(f))),
        },
        Stage::KnownSsid { ssid } => match outcome {
            Ok(out) => r == Step::Answer(Ok(lines_of(out@).contains(ssid@))),
            Err(f) => r == Step::Answer(Err(Error::CannotGetSSIDStatus(f))),
        },
        Stage::Disconnect => match outcome {
            Ok(out) => r == Step::Output(Ok(out)),
            Err(f) => r == Step::Output(Err(Error::CannotDisconnect(f))),
        },
        Stage::ScanListing { min_strength } => match outcome {
            Ok(out) => r.runs(signal_args()) && r->stage == Stage::ScanSignals {
                min_strength,
                listing: out,
            },
            Err(f) => r == Step::Output(Err(Error::CannotScanWiFi(f))),
        },
        Stage::ScanSignals { min_strength, listing } => match outcome {
            Ok(out) => r.outputs(filtered_scan(listing@, out@, min_strength)),
            Err(f) => r == Step::Output(Err(Error::CannotScanWiFi(f))),
        },
        Stage::Forget { ssid, passwd } => match outcome {
            Ok(_) => r.runs(connect_args(ssid@, Some(passwd@))) && r->stage == Stage::Connect,
            Err(f) => r == Step::Output(Err(Error::CannotDisconnect(f))),
        },
        Stage::Connect => match outcome {
            Ok(out) => r == Step::Output(Ok(out)),
            Err(f) => r == Step::Output(Err(Error::CannotConnect(f))),
        },
    }
}

impl Nmcli {
    /// Creates the adapter.
    pub fn new() -> (r: Nmcli) {
        Nmcli
    }
}

fn push_word(args: &mut Vec<Vec<u8>>, w: &str)
    requires
        w.is_ascii(),
    ensures
        views(final(args)@) == views(old(args)@).push(ascii(w@)),
{
    let ghost prev = views(args@);
    args.push(text(w));
    assert(views(args@) =~= prev.push(ascii(w@)));
}

fn push_bytes(args: &mut Vec<Vec<u8>>, b: &[u8])
    ensures
        views(final(args)@) == views(old(args)@).push(b@),
{
    let ghost prev = views(args@);
    args.push(slice_to_vec(b));
    assert(views(args@) =~= prev.push(b@));
}

fn build_status_args() -> (r: Vec<Vec<u8>>)
    ensures
        views(r@) == status_args(),
{
    proof {
        reveal_strlit("-g");
        reveal_strlit("WIFI");
        reveal_strlit("g");
    }
    let mut r: Vec<Vec<u8>> = Vec::new();
    push_word(&mut r, "-g");
    push_word(&mut r, "WIFI");
    push_word(&mut r, "g");
    assert(views(r@) =~= status_args());
    r
}

fn build_radio_args(enable: bool) -> (r: Vec<Vec<u8>>)
    ensures
        views(r@) == radio_args(enable),
{
    proof {
        reveal_strlit("radio");
        reveal_strlit("wifi");
        reveal_strlit("on");
        reveal_strlit("off");
    }
    let mut r: Vec<Vec<u8>> = Vec::new();
    push_word(&mut r, "radio");
    push_word(&mut r, "wifi");
    if enable {
        push_word(&mut r, "on");
    } else {
        push_word(&mut r, "off");
    }
    assert(views(r@) =~= radio_args(enable));
    r
}

fn build_list_args(show_active: bool, show_ssid: bool) -> (r: Vec<Vec<u8>>)
    ensures
        views(r@) == list_args(show_active, show_ssid),
{
    proof {
        reveal_strlit("--fields");
        reveal_strlit("NAME");
        reveal_strlit("connection");
        reveal_strlit("show");
        reveal_strlit("--active");
    }
    let mut r: Vec<Vec<u8>> = Vec::new();
    if show_ssid {
        push_word(&mut r, "--fields");
        push_word(&mut r, "NAME");
    }
    push_word(&mut r, "connection");
    push_word(&mut r, "show");
    if show_active {
        push_word(&mut r, "--active");
    }
    assert(views(r@) =~= list_args(show_active, show_ssid));
    r
}

fn build_connection_query(fields: &str, active: bool) -> (r: Vec<Vec<u8>>)
    requires
        fields.is_ascii(),
    ensures
        views(r@) == seq![ascii("-g"@), ascii(fields@), ascii("connection"@), ascii("show"@)] + (
        if active {
            seq![ascii("--active"@)]
        } else {
            Seq::empty()
        }),
{
    proof {
        reveal_strlit("-g");
        reveal_strlit("connection");
        reveal_strlit("show");
        reveal_strlit("--active");
    }
    let mut r: Vec<Vec<u8>> = Vec::new();
    push_word(&mut r, "-g");
    push_word(&mut r, fields);
    push_word(&mut r, "connection");
    push_word(&mut r, "show");
    if active {
        push_word(&mut r, "--active");
    }
    assert(views(r@) =~= seq![ascii("-g"@), ascii(fields@), ascii("connection"@), ascii("show"@)] + (
    if active {
        seq![ascii("--active"@)]
    } else {
        Seq::empty()
    }));
    r
}

fn build_disconnect_args(ssid: &[u8], forget: bool) -> (r: Vec<Vec<u8>>)
    ensures
        views(r@) == disconnect_args(ssid@, forget),
{
    proof {
        reveal_strlit("connection");
        reveal_strlit("delete");
        reveal_strlit("down");
        reveal_strlit("id");
    }
    let mut r: Vec<Vec<u8>> = Vec::new();
    push_word(&mut r, "connection");
    if forget {
        push_word(&mut r, "delete");
    } else {
        push_word(&mut r, "down");
    }
    push_word(&mut r, "id");
    push_bytes(&mut r, ssid);
    assert(views(r@) =~= disconnect_args(ssid@, forget));
    r
}

fn push_option(args: &mut Vec<Vec<u8>>, flag: &str, value: &String)
    requires
        flag.is_ascii(),
    ensures
        views(final(args)@) == views(old(args)@) + seq![ascii(flag@), encode_utf8(value@)],
{
    let ghost prev = views(args@);
    push_word(args, flag);
    let v = string_bytes(value);
    let ghost mid = views(args@);
    args.push(v);
    assert(views(args@) =~= mid.push(encode_utf8(value@)));
    assert(views(args@) =~= prev + seq![ascii(flag@), encode_utf8(value@)]);
}

fn build_listing_args(args: &ScanArgs) -> (r: Vec<Vec<u8>>)
    ensures
        views(r@) == listing_args(*args),
{
    proof {
        reveal_strlit("-f");
        reveal_strlit("-g");
        reveal_strlit("d");
        reveal_strlit("wifi");
        reveal_strlit("list");
        reveal_strlit("--rescan");
        reveal_strlit("yes");
    }
    let mut r: Vec<Vec<u8>> = Vec::new();
    match &args.columns {
        Some(c) => push_option(&mut r, "-f", c),
        None => match &args.get_values {
            Some(v) => push_option(&mut r, "-g", v),
            None => {},
        },
    }
    assert(views(r@) =~= format_args(*args));
    push_word(&mut r, "d");
    push_word(&mut r, "wifi");
    push_word(&mut r, "list");
    if args.re_scan {
        push_word(&mut r, "--rescan");
        push_word(&mut r, "yes");
    }
    assert(views(r@) =~= listing_args(*args));
    r
}

fn build_signal_args() -> (r: Vec<Vec<u8>>)
    ensures
        views(r@) == signal_args(),
{
    proof {
        reveal_strlit("-g");
        reveal_strlit("SIGNAL");
        reveal_strlit("d");
        reveal_strlit("wifi");
        reveal_strlit("list");
    }
    let mut r: Vec<Vec<u8>> = Vec::new();
    push_word(&mut r, "-g");
    push_word(&mut r, "SIGNAL");
    push_word(&mut r, "d");
    push_word(&mut r, "wifi");
    push_word(&mut r, "list");
    assert(views(r@) =~= signal_args());
    r
}

fn build_connect_args(ssid: &[u8], passwd: Option<&[u8]>) -> (r: Vec<Vec<u8>>)
    ensures
        views(r@) == connect_args(ssid@, opt_view(passwd)),
{
    proof {
        reveal_strlit("d");
        reveal_strlit("wifi");
        reveal_strlit("connect");
        reveal_strlit("password");
        reveal_strlit("connection");
        reveal_strlit("up");
        reveal_strlit("id");
    }
    let mut r: Vec<Vec<u8>> = Vec::new();
    match passwd {
        Some(p) => {
            push_word(&mut r, "d");
            push_word(&mut r, "wifi");
            push_word(&mut r, "connect");
            push_bytes(&mut r, ssid);
            push_word(&mut r, "password");
            push_bytes(&mut r, p);
            assert(views(r@) =~= connect_args(ssid@, Some(p@)));
        },
        None => {
            push_word(&mut r, "connection");
            push_word(&mut r, "up");
            push_word(&mut r, "id");
            push_bytes(&mut r, ssid);
            assert(views(r@) =~= connect_args(ssid@, None));
        },
    }
    r
}

/// Whether a signal line reads as a number of at least `min`.
fn reaches(line: &[u8], min: u8) -> (r: bool)
    ensures
        r == signal_reaches(line@, min),
{
    match Decimal::parse(line) {
        Some(d) => d.inner() >= min,
        None => false,
    }
}

/// What a scan shows: the first row of `listing` (its header), then each
/// further row whose signal line, one position earlier in `signals`, reads
/// as at least `min_strength`; every row ends with a line feed.
///
/// The two listings are matched by position alone: they must list the
/// same networks in the same order.
pub fn filter_scan(listing: &[u8], signals: &[u8], min_strength: u8) -> (r: Vec<u8>)
    ensures
        r@ == filtered_scan(listing@, signals@, min_strength),
{
    let rows = lines(listing);
    let sig = lines(signals);
    let mut r: Vec<u8> = Vec::new();
    let mut j: usize = 0;
    assert(views(rows@).subrange(0, 0) =~= Seq::<Seq<u8>>::empty());
    while j < rows.len()
        invariant
            j <= rows@.len(),
            views(rows@) == lines_of(listing@),
            views(sig@) == lines_of(signals@),
            r@ == terminated(kept_rows(views(rows@).subrange(0, j as int), views(sig@), min_strength)),
        decreases rows.len() - j,
    {
        let keep = j == 0 || (j - 1 < sig.len() && reaches(sig[j - 1].as_slice(), min_strength));
        let ghost pre = views(rows@).subrange(0, j as int);
        let ghost prev_kept = kept_rows(pre, views(sig@), min_strength);
        assert(views(rows@).subrange(0, j + 1).drop_last() =~= pre);
        assert(keep == row_kept(views(sig@), min_strength, j as int));
        if keep {
            r.extend_from_slice(rows[j].as_slice());
            r.push(LINE_FEED);
            let ghost now = prev_kept.push(rows@[j as int]@);
            assert(now.drop_last() =~= prev_kept);
            assert(r@ =~= terminated(now));
        }
        j += 1;
    }
    assert(views(rows@).subrange(0, j as int) =~= views(rows@));
    r
}

/// Whether one of the records of `out` is exactly `ssid`.
fn has_line(out: &[u8], ssid: &[u8]) -> (r: bool)
    ensures
        r == lines_of(out@).contains(ssid@),
{
    let ls = lines(out);
    let mut i: usize = 0;
    while i < ls.len()
        invariant
            i <= ls@.len(),
            views(ls@) == lines_of(out@),
            forall|k: int| 0 <= k < i ==> views(ls@)[k] != ssid@,
        decreases ls.len() - i,
    {
        if bytes_eq(ls[i].as_slice(), ssid) {
            assert(views(ls@)[i as int] == ssid@);
            return true;
        }
        i += 1;
    }
    false
}

impl Wl for Nmcli {
    /// The separator of `nmcli`'s terse outputs: a colon.
    fn get_field_separator(&self) -> (r: u8)
        ensures
            r == 58,
    {
        58
    }

    fn get_wifi_status(&self) -> (r: Step)
        ensures
            r.runs(status_args()),
            r->stage == Stage::WifiStatus,
    {
        Step::Run { args: build_status_args(), stage: Stage::WifiStatus }
    }

    fn toggle_wifi(&self) -> (r: Step)
        ensures
            r.runs(status_args()),
            r->stage == Stage::ToggleQuery,
    {
        Step::Run { args: build_status_args(), stage: Stage::ToggleQuery }
    }

    fn list_networks(&self, show_active: bool, show_ssid: bool) -> (r: Step)
        ensures
            r.runs(list_args(show_active, show_ssid)),
            r->stage == Stage::ListNetworks,
    {
        Step::Run { args: build_list_args(show_active, show_ssid), stage: Stage::ListNetworks }
    }

    fn get_active_ssid_dev_pairs(&self) -> (r: Step)
        ensures
            r.runs(pairs_args()),
            r->stage == Stage::ActivePairs,
    {
        proof {
            reveal_strlit("NAME,DEVICE");
        }
        let args = build_connection_query("NAME,DEVICE", true);
        assert(views(args@) =~= pairs_args());
        Step::Run { args, stage: Stage::ActivePairs }
    }

    fn get_active_ssids(&self) -> (r: Step)
        ensures
            r.runs(active_ssids_args()),
            r->stage == Stage::ActiveSsids,
    {
        proof {
            reveal_strlit("NAME");
        }
        let args = build_connection_query("NAME", true);
        assert(views(args@) =~= active_ssids_args());
        Step::Run { args, stage: Stage::ActiveSsids }
    }

    fn disconnect(&self, ssid: &[u8], forget: bool) -> (r: Step)
        ensures
            r.runs(disconnect_args(ssid@, forget)),
            r->stage == Stage::Disconnect,
    {
        Step::Run { args: build_disconnect_args(ssid, forget), stage: Stage::Disconnect }
    }

    /// A floor above [`MAX_SIGNAL_STRENGTH`] is refused before anything runs.
    fn scan(&self, args: &ScanArgs) -> (r: Step)
        ensures
            args.min_strength > MAX_SIGNAL_STRENGTH ==> r == Step::Output(
                Err(Error::InvalidSignalStrength(args.min_strength)),
            ),
            args.min_strength > MAX_SIGNAL_STRENGTH ==> r.fails(),
            args.min_strength <= MAX_SIGNAL_STRENGTH ==> r.runs(listing_args(*args)),
            args.min_strength <= MAX_SIGNAL_STRENGTH ==> r->stage == (Stage::ScanListing {
                min_strength: args.min_strength,
            }),
    {
        if args.min_strength > MAX_SIGNAL_STRENGTH {
            return Step::Output(Err(Error::InvalidSignalStrength(args.min_strength)));
        }
        Step::Run {
            args: build_listing_args(args),
            stage: Stage::ScanListing { min_strength: args.min_strength },
        }
    }

    fn is_known_ssid(&self, ssid: &[u8]) -> (r: Step)
        ensures
            r.runs(known_args()),
            r->stage matches Stage::KnownSsid { ssid: s } && s@ == ssid@,
    {
        proof {
            reveal_strlit("NAME");
        }
        let args = build_connection_query("NAME", false);
        assert(views(args@) =~= known_args());
        Step::Run { args, stage: Stage::KnownSsid { ssid: slice_to_vec(ssid) } }
    }

    fn connect(&self, ssid: &[u8], passwd: Option<&[u8]>, is_known_ssid: bool) -> (r: Step)
        ensures
            is_known_ssid && passwd is Some ==> {
                &&& r.runs(disconnect_args(ssid@, true))
                &&& r->stage matches Stage::Forget { ssid: s, passwd: p }
                &&& s@ == ssid@
                &&& p@ == passwd->0@
            },
            !(is_known_ssid && passwd is Some) ==> {
                &&& r.runs(connect_args(ssid@, opt_view(passwd)))
                &&& r->stage == Stage::Connect
            },
    {
        match passwd {
            Some(p) => {
                if is_known_ssid {
                    Step::Run {
                        args: build_disconnect_args(ssid, true),
                        stage: Stage::Forget { ssid: slice_to_vec(ssid), passwd: slice_to_vec(p) },
                    }
                } else {
                    Step::Run { args: build_connect_args(ssid, Some(p)), stage: Stage::Connect }
                }
            },
            None => Step::Run { args: build_connect_args(ssid, None), stage: Stage::Connect },
        }
    }

    fn resume(&self, stage: Stage, outcome: Result<Vec<u8>, Failure>) -> (r: Step)
        ensures
            resumed(stage, outcome, r),
    {
        match stage {
            Stage::WifiStatus => match outcome {
                Ok(out) => Step::Output(Ok(join_lines(out.as_slice()))),
                Err(f) => Step::Output(Err(Error::CannotGetWiFiStatus(f))),
            },
            Stage::ToggleQuery => match outcome {
                Ok(out) => {
                    let status = join_lines(out.as_slice());
                    proof {
                        reveal_strlit("enabled");
                    }
                    let enabled = text("enabled");
                    let enable = !bytes_eq(status.as_slice(), enabled.as_slice());
                    Step::Run { args: build_radio_args(enable), stage: Stage::ToggleRadio { enable } }
                },
                Err(f) => Step::Output(Err(Error::CannotGetWiFiStatus(f))),
            },
            Stage::ToggleRadio { enable } => match outcome {
                Ok(_) => {
                    proof {
                        reveal_strlit("enabled");
                        reveal_strlit("disabled");
                    }
                    if enable {
                        Step::Output(Ok(text("enabled")))
                    } else {
                        Step::Output(Ok(text("disabled")))
                    }
                },
                Err(f) => Step::Output(Err(Error::CannotToggleWiFi(f))),
            },
            Stage::ListNetworks => match outcome {
                Ok(out) => Step::Output(Ok(out)),
                Err(f) => Step::Output(Err(Error::CannotListNetworks(f))),
            },
            Stage::ActivePairs => match outcome {
                Ok(out) => Step::Output(Ok(out)),
                Err(f) => Step::Output(Err(Error::CannotGetActiveConnections(f))),
            },
            Stage::ActiveSsids => match outcome {
                Ok(out) => Step::Output(Ok(out)),
                Err(f) => Step::Output(Err(Error::CannotGetSSIDStatus(f))),
            },
            Stage::KnownSsid { ssid } => match outcome {
                Ok(out) => Step::Answer(Ok(has_line(out.as_slice(), ssid.as_slice()))),
                Err(f) => Step::Answer(Err(Error::CannotGetSSIDStatus(f))),
            },
            Stage::Disconnect => match outcome {
                Ok(out) => Step::Output(Ok(out)),
                Err(f) => Step::Output(Err(Error::CannotDisconnect(f))),
            },
            Stage::ScanListing { min_strength } => match outcome {
                Ok(out) => Step::Run {
                    args: build_signal_args(),
                    stage: Stage::ScanSignals { min_strength, listing: out },
                },
                Err(f) => Step::Output(Err(Error::CannotScanWiFi(f))),
            },
            Stage::ScanSignals { min_strength, listing } => match outcome {
                Ok(out) => Step::Output(
                    Ok(filter_scan(listing.as_slice(), out.as_slice(), min_strength)),
                ),
                Err(f) => Step::Output(Err(Error::CannotScanWiFi(f))),
            },
            Stage::Forget { ssid, passwd } => match outcome {
                Ok(_) => Step::Run {
                    args: build_connect_args(ssid.as_slice(), Some(passwd.as_slice())),
                    stage: Stage::Connect,
                },
                Err(f) => Step::Output(Err(Error::CannotDisconnect(f))),
            },
            Stage::Connect => match outcome {
                Ok(out) => Step::Output(Ok(out)),
                Err(f) => Step::Output(Err(Error::CannotConnect(f))),
            },
        }
    }
}

} // verus!
