use wl::api::ScanArgs;
use wl::{
    scan, Decimal, Failure, NetworkAdapterError, Nmcli, ScanError, Step, Wl, DEFAULT_EXIT_CODE,
};

fn words(ws: &[&str]) -> Vec<Vec<u8>> {
    ws.iter().map(|w| w.as_bytes().to_vec()).collect()
}

/// Runs an operation against a stand-in backend that answers each
/// invocation with `reply`, and records the invocations in order.
fn drive(
    nmcli: &Nmcli,
    first: Step,
    mut reply: impl FnMut(&[Vec<u8>]) -> Result<Vec<u8>, Failure>,
) -> (Vec<Vec<Vec<u8>>>, Step) {
    let mut calls = Vec::new();
    let mut step = first;
    loop {
        match step {
            Step::Run { args, stage } => {
                let outcome = reply(&args);
                calls.push(args);
                step = nmcli.resume(stage, outcome);
            }
            done => return (calls, done),
        }
    }
}

fn output(step: Step) -> Vec<u8> {
    match step {
        Step::Output(Ok(v)) => v,
        _ => panic!("the operation did not end with an output"),
    }
}

fn scan_args(min: u8, re_scan: bool, columns: Option<&str>, values: Option<&str>) -> ScanArgs {
    ScanArgs {
        min_strength: min,
        re_scan,
        columns: columns.map(String::from),
        get_values: values.map(String::from),
    }
}

#[test]
fn decimal_reads_digit_strings() {
    assert_eq!(Decimal::parse(b"5").unwrap().inner(), 5);
    assert_eq!(Decimal::parse(b"57").unwrap().inner(), 57);
    assert_eq!(Decimal::parse(b"100").unwrap().inner(), 100);
    assert_eq!(Decimal::parse(b"255").unwrap().inner(), 255);
    assert_eq!(Decimal::parse(b"007").unwrap().inner(), 7);
    assert_eq!(Decimal::parse(b"").unwrap().inner(), 0);
}

#[test]
fn decimal_rejects_other_bytes() {
    assert!(Decimal::parse(b"5a").is_none());
    assert!(Decimal::parse(b"-5").is_none());
    assert!(Decimal::parse(b" 5").is_none());
    assert!(Decimal::parse(b"256").is_none());
    assert!(Decimal::parse(b"99999").is_none());
}

#[test]
fn lines_split_on_line_feed_and_drop_carriage_return() {
    assert_eq!(wl::bytes::lines(b"a\r\nb\nc"), words(&["a", "b", "c"]));
    assert_eq!(wl::bytes::lines(b"a\n"), words(&["a", ""]));
    assert_eq!(wl::bytes::lines(b""), words(&[""]));
    assert_eq!(wl::bytes::lines(b"x\r\r\n"), words(&["x\r", ""]));
    assert_eq!(wl::bytes::join_lines(b"en\r\nabled\n"), b"enabled".to_vec());
}

#[test]
fn field_separator_is_colon() {
    assert_eq!(Nmcli::new().get_field_separator(), b':');
}

#[test]
fn wifi_status_is_one_line() {
    let nmcli = Nmcli::new();
    let (calls, end) = drive(&nmcli, nmcli.get_wifi_status(), |_| Ok(b"enabled\r\n".to_vec()));
    assert_eq!(calls, vec![words(&["-g", "WIFI", "g"])]);
    assert_eq!(output(end), b"enabled".to_vec());
}

#[test]
fn toggle_switches_enabled_radio_off() {
    let nmcli = Nmcli::new();
    let (calls, end) = drive(&nmcli, nmcli.toggle_wifi(), |args| {
        if args[0] == b"-g" {
            Ok(b"enabled\n".to_vec())
        } else {
            Ok(Vec::new())
        }
    });
    assert_eq!(calls, vec![words(&["-g", "WIFI", "g"]), words(&["radio", "wifi", "off"])]);
    assert_eq!(output(end), b"disabled".to_vec());
}

#[test]
fn toggle_switches_disabled_radio_on() {
    let nmcli = Nmcli::new();
    let (calls, end) = drive(&nmcli, nmcli.toggle_wifi(), |args| {
        if args[0] == b"-g" {
            Ok(b"disabled\n".to_vec())
        } else {
            Ok(Vec::new())
        }
    });
    assert_eq!(calls[1], words(&["radio", "wifi", "on"]));
    assert_eq!(output(end), b"enabled".to_vec());
}

#[test]
fn toggle_failure_of_the_status_query_stops_it() {
    let nmcli = Nmcli::new();
    let (calls, end) = drive(&nmcli, nmcli.toggle_wifi(), |_| {
        Err(Failure::from_exit(b"nmcli broke\n", Some(8)))
    });
    assert_eq!(calls.len(), 1);
    match end {
        Step::Output(Err(e)) => {
            assert!(matches!(e, NetworkAdapterError::CannotGetWiFiStatus(_)));
            assert_eq!(e.exit_code(), 8);
            assert_eq!(e.message(), b"unable to get the WiFi status: nmcli broke".to_vec());
        }
        _ => panic!("expected an error"),
    }
}

#[test]
fn list_networks_arguments() {
    let nmcli = Nmcli::new();
    let cases = [
        (false, false, vec!["connection", "show"]),
        (true, false, vec!["connection", "show", "--active"]),
        (false, true, vec!["--fields", "NAME", "connection", "show"]),
        (true, true, vec!["--fields", "NAME", "connection", "show", "--active"]),
    ];
    for (active, ssid, expected) in cases {
        let (calls, end) = drive(&nmcli, nmcli.list_networks(active, ssid), |_| {
            Ok(b"NAME\nHome\n".to_vec())
        });
        assert_eq!(calls, vec![words(&expected)]);
        assert_eq!(output(end), b"NAME\nHome\n".to_vec());
    }
}

#[test]
fn active_connection_queries() {
    let nmcli = Nmcli::new();
    let (calls, end) = drive(&nmcli, nmcli.get_active_ssid_dev_pairs(), |_| {
        Ok(b"Home:wlan0\n".to_vec())
    });
    assert_eq!(calls, vec![words(&["-g", "NAME,DEVICE", "connection", "show", "--active"])]);
    assert_eq!(output(end), b"Home:wlan0\n".to_vec());
    let (calls, _) = drive(&nmcli, nmcli.get_active_ssids(), |_| Ok(b"Home\n".to_vec()));
    assert_eq!(calls, vec![words(&["-g", "NAME", "connection", "show", "--active"])]);
}

#[test]
fn active_connection_query_failure_kinds() {
    let nmcli = Nmcli::new();
    let fail = |_: &[Vec<u8>]| Err(Failure::from_exit(b"no", None));
    match drive(&nmcli, nmcli.get_active_ssid_dev_pairs(), fail).1 {
        Step::Output(Err(NetworkAdapterError::CannotGetActiveConnections(f))) => {
            assert_eq!(f.code, DEFAULT_EXIT_CODE)
        }
        _ => panic!("expected CannotGetActiveConnections"),
    }
    match drive(&nmcli, nmcli.get_active_ssids(), fail).1 {
        Step::Output(Err(NetworkAdapterError::CannotGetSSIDStatus(_))) => {}
        _ => panic!("expected CannotGetSSIDStatus"),
    }
    match drive(&nmcli, nmcli.list_networks(false, false), fail).1 {
        Step::Output(Err(NetworkAdapterError::CannotListNetworks(_))) => {}
        _ => panic!("expected CannotListNetworks"),
    }
}

#[test]
fn known_ssid_needs_an_exact_line() {
    let nmcli = Nmcli::new();
    let listing = |_: &[Vec<u8>]| Ok(b"Home\r\nWork\n".to_vec());
    let (calls, end) = drive(&nmcli, nmcli.is_known_ssid(b"Work"), listing);
    assert_eq!(calls, vec![words(&["-g", "NAME", "connection", "show"])]);
    assert!(matches!(end, Step::Answer(Ok(true))));
    let (_, end) = drive(&nmcli, nmcli.is_known_ssid(b"Home"), listing);
    assert!(matches!(end, Step::Answer(Ok(true))));
    let (_, end) = drive(&nmcli, nmcli.is_known_ssid(b"Wor"), listing);
    assert!(matches!(end, Step::Answer(Ok(false))));
    let (_, end) = drive(&nmcli, nmcli.is_known_ssid(b"Guest"), listing);
    assert!(matches!(end, Step::Answer(Ok(false))));
    let (_, end) = drive(&nmcli, nmcli.is_known_ssid(b"Home"), |_| {
        Err(Failure::from_exit(b"", Some(3)))
    });
    assert!(matches!(end, Step::Answer(Err(NetworkAdapterError::CannotGetSSIDStatus(_)))));
}

#[test]
fn disconnect_with_forget_deletes_the_profile() {
    let nmcli = Nmcli::new();
    let (calls, end) = drive(&nmcli, nmcli.disconnect(b"Home", true), |_| Ok(b"deleted\n".to_vec()));
    assert_eq!(calls, vec![words(&["connection", "delete", "id", "Home"])]);
    assert_eq!(output(end), b"deleted\n".to_vec());
}

#[test]
fn disconnect_without_forget_brings_the_connection_down() {
    let nmcli = Nmcli::new();
    let (calls, end) = drive(&nmcli, nmcli.disconnect(b"Home", false), |_| {
        Err(Failure::from_exit(b"Error: unknown connection 'Home'.\n", Some(10)))
    });
    assert_eq!(calls, vec![words(&["connection", "down", "id", "Home"])]);
    match end {
        Step::Output(Err(e)) => {
            assert!(matches!(e, NetworkAdapterError::CannotDisconnect(_)));
            assert_eq!(e.exit_code(), 10);
        }
        _ => panic!("expected an error"),
    }
}

#[test]
fn connect_known_network_with_new_password_forgets_it_first() {
    let nmcli = Nmcli::new();
    let (calls, end) = drive(&nmcli, nmcli.connect(b"Known", Some(b"x"), true), |_| {
        Ok(b"ok\n".to_vec())
    });
    assert_eq!(
        calls,
        vec![
            words(&["connection", "delete", "id", "Known"]),
            words(&["d", "wifi", "connect", "Known", "password", "x"]),
        ]
    );
    assert_eq!(output(end), b"ok\n".to_vec());
}

#[test]
fn connect_stops_when_forgetting_fails() {
    let nmcli = Nmcli::new();
    let (calls, end) = drive(&nmcli, nmcli.connect(b"Known", Some(b"x"), true), |_| {
        Err(Failure::from_exit(b"busy", Some(4)))
    });
    assert_eq!(calls.len(), 1);
    assert!(matches!(end, Step::Output(Err(NetworkAdapterError::CannotDisconnect(_)))));
}

#[test]
fn connect_other_forms() {
    let nmcli = Nmcli::new();
    let ok = |_: &[Vec<u8>]| Ok(Vec::new());
    let (calls, _) = drive(&nmcli, nmcli.connect(b"New", Some(b"pw"), false), ok);
    assert_eq!(calls, vec![words(&["d", "wifi", "connect", "New", "password", "pw"])]);
    let (calls, _) = drive(&nmcli, nmcli.connect(b"Known", None, true), ok);
    assert_eq!(calls, vec![words(&["connection", "up", "id", "Known"])]);
    let (_, end) = drive(&nmcli, nmcli.connect(b"Known", None, true), |_| {
        Err(Failure::from_exit(b"bad", Some(4)))
    });
    assert!(matches!(end, Step::Output(Err(NetworkAdapterError::CannotConnect(_)))));
}

#[test]
fn scan_columns_take_precedence_over_terse_fields() {
    let step = scan(scan_args(0, false, Some("SSID,SIGNAL"), Some("SSID"))).ok().unwrap();
    match step {
        Step::Run { args, .. } => {
            assert_eq!(args, words(&["-f", "SSID,SIGNAL", "d", "wifi", "list"]))
        }
        _ => panic!("expected an invocation"),
    }
}

#[test]
fn scan_listing_arguments() {
    let first_args = |a: ScanArgs| match Nmcli::new().scan(&a) {
        Step::Run { args, .. } => args,
        _ => panic!("expected an invocation"),
    };
    assert_eq!(first_args(scan_args(0, false, None, None)), words(&["d", "wifi", "list"]));
    assert_eq!(
        first_args(scan_args(0, true, None, Some("SSID"))),
        words(&["-g", "SSID", "d", "wifi", "list", "--rescan", "yes"])
    );
    assert_eq!(
        first_args(scan_args(0, false, Some(""), None)),
        words(&["-f", "", "d", "wifi", "list"])
    );
}

#[test]
fn scan_rejects_floor_above_one_hundred() {
    for min in [101u8, 150, 255] {
        match scan(scan_args(min, false, None, None)) {
            Err(e) => {
                assert!(matches!(e, ScanError::InvalidSignalStrength(m) if m == min));
            }
            Ok(_) => panic!("a floor above 100 must be refused"),
        }
    }
    let e = scan(scan_args(101, false, None, None)).err().unwrap();
    assert_eq!(e.message(), b"the given signal strength 101 is not in limits (0..100)".to_vec());
    assert!(scan(scan_args(100, false, None, None)).is_ok());
    assert!(scan(scan_args(0, false, None, None)).is_ok());
}

#[test]
fn adapter_scan_refuses_floor_above_one_hundred_before_running() {
    let nmcli = Nmcli::new();
    for min in [101u8, 200, 255] {
        let (calls, end) = drive(&nmcli, nmcli.scan(&scan_args(min, true, None, None)), |_| {
            Ok(b"H\n".to_vec())
        });
        assert!(calls.is_empty());
        match end {
            Step::Output(Err(e)) => {
                assert!(matches!(e, NetworkAdapterError::InvalidSignalStrength(m) if m == min));
                assert_eq!(e.exit_code(), DEFAULT_EXIT_CODE);
            }
            _ => panic!("a floor above 100 must be refused"),
        }
    }
    let e = NetworkAdapterError::InvalidSignalStrength(101);
    assert_eq!(e.message(), b"the given signal strength 101 is not in limits (0..100)".to_vec());
    let (calls, _) = drive(&nmcli, nmcli.scan(&scan_args(100, false, None, None)), |_| {
        Ok(b"H\n".to_vec())
    });
    assert_eq!(calls.len(), 2);
}

fn run_scan(min: u8, listing: &'static [u8], signals: &'static [u8]) -> (Vec<Vec<Vec<u8>>>, Vec<u8>) {
    let nmcli = Nmcli::new();
    let step = scan(scan_args(min, false, Some("SSID,SIGNAL"), None)).ok().unwrap();
    let (calls, end) = drive(&nmcli, step, |args| {
        if args[1] == b"SIGNAL" {
            Ok(signals.to_vec())
        } else {
            Ok(listing.to_vec())
        }
    });
    (calls, output(end))
}

#[test]
fn scan_keeps_header_and_strong_networks() {
    let listing: &[u8] = b"SSID  SIGNAL\nNetA  80\nNetB  30\nNetC  55\n";
    let (calls, out) = run_scan(50, listing, b"80\n30\n55\n");
    assert_eq!(
        calls,
        vec![
            words(&["-f", "SSID,SIGNAL", "d", "wifi", "list"]),
            words(&["-g", "SIGNAL", "d", "wifi", "list"]),
        ]
    );
    assert_eq!(out, b"SSID  SIGNAL\nNetA  80\nNetC  55\n".to_vec());
}

#[test]
fn scan_floor_is_inclusive() {
    let (_, out) = run_scan(55, b"H\nA\nB\n", b"54\n55\n");
    assert_eq!(out, b"H\nB\n".to_vec());
    let (_, out) = run_scan(100, b"H\nA\nB\n", b"99\n100\n");
    assert_eq!(out, b"H\nB\n".to_vec());
}

#[test]
fn scan_with_zero_floor_keeps_everything() {
    let (_, out) = run_scan(0, b"H\r\nA\r\nB\r\n", b"10\r\n0\r\n");
    assert_eq!(out, b"H\nA\nB\n\n".to_vec());
}

#[test]
fn scan_never_shows_signal_lines() {
    let (_, out) = run_scan(10, b"HEADER\nNet1\n", b"77\n");
    assert_eq!(out, b"HEADER\nNet1\n".to_vec());
    assert!(!out.windows(2).any(|w| w == b"77"));
}

#[test]
fn scan_drops_rows_whose_signal_is_unreadable() {
    let (_, out) = run_scan(1, b"H\nA\nB\nC\n", b"x\n70\n");
    assert_eq!(out, b"H\nB\n".to_vec());
}

#[test]
fn scan_empty_listing_shows_header_only() {
    let (_, out) = run_scan(30, b"", b"");
    assert_eq!(out, b"\n".to_vec());
}

#[test]
fn scan_failure_is_a_scan_error() {
    let nmcli = Nmcli::new();
    let step = scan(scan_args(0, false, None, None)).ok().unwrap();
    let (calls, end) = drive(&nmcli, step, |args| {
        if args[1] == b"SIGNAL" {
            Err(Failure::from_exit(b"Error: bad\n", Some(2)))
        } else {
            Ok(b"H\n".to_vec())
        }
    });
    assert_eq!(calls.len(), 2);
    match end {
        Step::Output(Err(e)) => {
            assert!(matches!(e, NetworkAdapterError::CannotScanWiFi(_)));
            assert_eq!(e.exit_code(), 2);
        }
        _ => panic!("expected an error"),
    }
}

#[test]
fn failure_joins_diagnostic_lines() {
    let f = Failure::from_exit(b"Error: one\r\ntwo\n", None);
    assert_eq!(f.message, b"Error: onetwo".to_vec());
    assert_eq!(f.code, 1);
    let f = Failure::from_exit(b"x", Some(-3));
    assert_eq!(f.code, -3);
    let f = Failure::not_started(b"not found".to_vec());
    assert_eq!(f.code, DEFAULT_EXIT_CODE);
}

#[test]
fn error_messages_name_the_operation() {
    let e = NetworkAdapterError::CannotConnect(Failure::from_exit(b"Secrets were required", Some(4)));
    assert_eq!(e.message(), b"unable to connect to the network: Secrets were required".to_vec());
    let e = NetworkAdapterError::CannotToggleWiFi(Failure::from_exit(b"", Some(5)));
    assert_eq!(e.message(), b"unable to toggle WiFi: ".to_vec());
    assert_eq!(e.exit_code(), 5);
}
