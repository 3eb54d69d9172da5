use wl::api::{Args, WlCommand};
use wl::{
    active_candidates, connect_prompt, connected_networks, disconnect_prompt, needs_password,
    password_from, password_prompt, scan_candidates, select_active_ssid, select_ssid,
    ssid_scan_args, status_line, ConnectError, DisconnectError,
};

fn pair(a: &str, b: &str) -> (Vec<u8>, Vec<u8>) {
    (a.as_bytes().to_vec(), b.as_bytes().to_vec())
}

fn contains(hay: &[u8], needle: &[u8]) -> bool {
    hay.windows(needle.len()).any(|w| w == needle)
}

#[test]
fn selector_example_net_a_net_b() {
    let cands = scan_candidates(b"NetA:80\nNetB:40\n", b':');
    assert_eq!(cands, vec![pair("NetA", "80"), pair("NetB", "40")]);
    let prompt = connect_prompt(&cands);
    assert!(contains(&prompt, b"(0) NetA"));
    assert!(contains(&prompt, b"(1) NetB"));
    assert_eq!(
        prompt,
        b"(0) NetA (sig: 80)\n(1) NetB (sig: 40)\nSelect the SSID to connect: ".to_vec()
    );
    assert_eq!(select_ssid("1", &cands).ok().unwrap(), b"NetB".to_vec());
    assert!(matches!(select_ssid("5", &cands), Err(ConnectError::CannotReadSSID(None))));
    match select_ssid("abc", &cands) {
        Err(ConnectError::CannotReadSSID(Some(m))) => {
            assert_eq!(m, b"invalid digit found in string".to_vec())
        }
        _ => panic!("expected a parse error"),
    }
}

#[test]
fn selector_answer_is_trimmed() {
    let cands = vec![pair("NetA", "80"), pair("NetB", "40")];
    assert_eq!(select_ssid(" 0\n", &cands).ok().unwrap(), b"NetA".to_vec());
    assert_eq!(select_ssid("1\r\n", &cands).ok().unwrap(), b"NetB".to_vec());
    match select_ssid("\n", &cands) {
        Err(ConnectError::CannotReadSSID(Some(m))) => {
            assert_eq!(m, b"cannot parse integer from empty string".to_vec())
        }
        _ => panic!("expected a parse error"),
    }
    match select_ssid("99999999999999999999999", &cands) {
        Err(ConnectError::CannotReadSSID(Some(m))) => {
            assert_eq!(m, b"number too large to fit in target type".to_vec())
        }
        _ => panic!("expected a parse error"),
    }
    assert!(matches!(select_ssid("-1", &cands), Err(ConnectError::CannotReadSSID(Some(_)))));
    assert_eq!(select_ssid("+1", &cands).ok().unwrap(), b"NetB".to_vec());
    assert!(matches!(select_ssid("+", &cands), Err(ConnectError::CannotReadSSID(Some(_)))));
    assert!(matches!(select_ssid("++1", &cands), Err(ConnectError::CannotReadSSID(Some(_)))));
    assert_eq!(select_ssid("\u{a0}1\u{3000}\n", &cands).ok().unwrap(), b"NetB".to_vec());
    assert_eq!(select_ssid("\u{2003}0\u{85}", &cands).ok().unwrap(), b"NetA".to_vec());
    assert!(matches!(select_ssid("1\u{200b}", &cands), Err(ConnectError::CannotReadSSID(Some(_)))));
    assert!(matches!(select_ssid("1 2", &cands), Err(ConnectError::CannotReadSSID(Some(_)))));
}

#[test]
fn scan_candidates_skip_blank_and_incomplete_records() {
    let cands = scan_candidates(b"NetA:80\r\n\n:55\nNetB::40\nNetC\n", b':');
    assert_eq!(cands, vec![pair("NetA", "80"), pair("NetB", "40")]);
    let prompt = connect_prompt(&cands);
    assert_eq!(
        prompt,
        b"(0) NetA (sig: 80)\n(1) NetB (sig: 40)\nSelect the SSID to connect: ".to_vec()
    );
    assert_eq!(connect_prompt(&Vec::new()), b"Select the SSID to connect: ".to_vec());
}

#[test]
fn menu_numbers_reach_two_digits() {
    let cands: Vec<Vec<u8>> = (0..12).map(|i| format!("N{}", i).into_bytes()).collect();
    let prompt = disconnect_prompt(&cands);
    assert!(contains(&prompt, b"(10) N10\n(11) N11\n"));
    assert_eq!(select_active_ssid("11", &cands).ok().unwrap(), b"N11".to_vec());
}

#[test]
fn active_candidates_skip_loopback_and_blank_lines() {
    let cands = active_candidates(b"lo\nHome\n\nWork\r\nlo\r\n");
    assert_eq!(cands, vec![b"Home".to_vec(), b"Work".to_vec()]);
    assert_eq!(
        disconnect_prompt(&cands),
        b"(0) Home\n(1) Work\nSelect the SSID to disconnect: ".to_vec()
    );
    assert_eq!(select_active_ssid("1\n", &cands).ok().unwrap(), b"Work".to_vec());
    assert!(matches!(
        select_active_ssid("2", &cands),
        Err(DisconnectError::InvalidActiveSSID(None))
    ));
    assert!(matches!(
        select_active_ssid("two", &cands),
        Err(DisconnectError::InvalidActiveSSID(Some(_)))
    ));
    assert_eq!(active_candidates(b"lo\n"), Vec::<Vec<u8>>::new());
    assert_eq!(&wl::LOOPBACK_INTERFACE_NAME[..], b"lo");
}

#[test]
fn selection_error_messages() {
    let e = DisconnectError::InvalidActiveSSID(None);
    assert_eq!(e.message(), b"unable to get the active SSID".to_vec());
    let e = DisconnectError::InvalidActiveSSID(Some(b"bad".to_vec()));
    assert_eq!(e.message(), b"unable to get the active SSID: bad".to_vec());
    let e = ConnectError::CannotReadSSID(None);
    assert_eq!(e.message(), b"the given SSID does not exist on the list".to_vec());
    let e = ConnectError::CannotReadSSID(Some(b"x".to_vec()));
    assert_eq!(e.message(), b"unable to get the SSID: x".to_vec());
    let e = ConnectError::CannotReadPasswd(b"closed".to_vec());
    assert_eq!(e.message(), b"cannot read passwd from stdin: closed".to_vec());
}

#[test]
fn password_prompt_and_input() {
    assert_eq!(password_prompt(b"Home"), b"Enter the password for Home: ".to_vec());
    assert_eq!(password_from("secret \n"), Some(b"secret".to_vec()));
    assert_eq!(password_from(" two words\t\r\n"), Some(b" two words".to_vec()));
    assert_eq!(password_from("  \n"), None);
    assert_eq!(password_from(""), None);
    assert_eq!(password_from("pw\u{a0}"), Some(b"pw".to_vec()));
    assert_eq!(password_from("p\u{e9}\u{2028}\n"), Some("p\u{e9}".as_bytes().to_vec()));
    assert_eq!(password_from("\u{3000}"), None);
}

#[test]
fn password_is_asked_when_forced_or_unknown() {
    assert!(needs_password(true, true));
    assert!(needs_password(true, false));
    assert!(needs_password(false, false));
    assert!(!needs_password(false, true));
}

#[test]
fn ssid_scan_asks_for_fresh_terse_ssid_and_signal() {
    let a = ssid_scan_args();
    assert_eq!(a.min_strength, 0);
    assert!(a.re_scan);
    assert!(a.columns.is_none());
    assert_eq!(a.get_values.as_deref(), Some("SSID,SIGNAL"));
}

#[test]
fn status_lines() {
    assert_eq!(status_line(b"enabled"), b"wifi: enabled \n".to_vec());
    assert_eq!(
        connected_networks(b"Home:wlan0\r\nlo:lo\n", b':'),
        b"connected networks: Home/wlan0, lo/lo".to_vec()
    );
    assert_eq!(connected_networks(b"Home:wlan0\n", b':'), b"connected networks: Home/wlan0".to_vec());
    assert_eq!(connected_networks(b"", b':'), b"connected networks: ".to_vec());
    assert_eq!(
        connected_networks(b"broken\nA:B:C\n", b':'),
        b"connected networks: A/B".to_vec()
    );
}

#[test]
fn command_defaults_to_status() {
    assert!(matches!(Args { wl_command: None }.command(), WlCommand::Status));
    let c = Args { wl_command: Some(WlCommand::Toggle) }.command();
    assert!(matches!(c, WlCommand::Toggle));
}
