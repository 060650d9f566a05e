use music_controller::improv::{
    build_rpc_response, frame_error, frame_response, frame_state, Command, ImprovCommand,
    ImprovError, State,
};
use music_controller::provisioning::{
    command_handled, on_command, on_connection_checked, on_networks_scanned, on_wifi_connected, CommandStep,
    NetworkInfo,
};
use music_controller::wifi::{find_network, parse_serial_credentials, SerialCredentials};

fn command(c: Command, ssid: &str, password: &str) -> ImprovCommand {
    ImprovCommand { command: c, ssid: ssid.to_string(), password: password.to_string() }
}

#[test]
fn wifi_settings_start_provisioning() {
    match on_command(command(Command::WifiSettings, "home", "pw")) {
        CommandStep::ConnectWifi { packets, credentials } => {
            assert_eq!(packets, vec![frame_state(State::StateProvisioning)]);
            assert_eq!(credentials.ssid, "home");
            assert_eq!(credentials.password, "pw");
        }
        _ => panic!("expected a connection attempt"),
    }
}

#[test]
fn wifi_settings_without_ssid_are_invalid() {
    match on_command(command(Command::WifiSettings, "", "pw")) {
        CommandStep::Done { packets, handled } => {
            assert_eq!(packets, vec![frame_error(ImprovError::ErrorInvalidRpc)]);
            assert!(handled);
        }
        _ => panic!("expected an error"),
    }
}

#[test]
fn device_info_is_answered() {
    match on_command(command(Command::GetDeviceInfo, "", "")) {
        CommandStep::Done { packets, handled } => {
            let infos = vec!["music-controller", "1.0.0", "ESP32", "Music controller for spotify"];
            let expected = frame_response(build_rpc_response(Command::GetDeviceInfo, infos, false));
            assert_eq!(packets, vec![expected]);
            assert!(handled);
        }
        _ => panic!("expected an answer"),
    }
}

#[test]
fn unknown_command_is_not_handled() {
    match on_command(command(Command::BadChecksum, "", "")) {
        CommandStep::Done { packets, handled } => {
            assert_eq!(packets, vec![frame_error(ImprovError::ErrorUnknownRpc)]);
            assert!(!handled);
        }
        _ => panic!("expected an error"),
    }
}

#[test]
fn state_and_network_requests_need_wifi() {
    assert!(matches!(on_command(command(Command::GetCurrentState, "", "")), CommandStep::CheckConnection));
    assert!(matches!(on_command(command(Command::GetWifiNetworks, "", "")), CommandStep::ScanNetworks));
}

#[test]
fn connection_outcomes() {
    let url = frame_response(build_rpc_response(
        Command::WifiSettings,
        vec!["http://music-controller.local"],
        false,
    ));
    assert_eq!(on_wifi_connected(true), vec![frame_state(State::StateProvisioned), url]);
    assert_eq!(
        on_wifi_connected(false),
        vec![frame_state(State::StateStopped), frame_error(ImprovError::ErrorUnableToConnect)]
    );
    assert_eq!(on_connection_checked(false), vec![frame_state(State::StateAuthorized)]);
    assert_eq!(on_connection_checked(true).len(), 2);
}

#[test]
fn networks_are_listed_then_terminated() {
    let nets = vec![
        NetworkInfo { ssid: "home".to_string(), signal_strength: -42, has_auth: true },
        NetworkInfo { ssid: "cafe".to_string(), signal_strength: -128, has_auth: false },
    ];
    let packets = on_networks_scanned(&nets);
    assert_eq!(packets.len(), 3);
    assert_eq!(
        packets[0],
        frame_response(build_rpc_response(Command::GetWifiNetworks, vec!["home", "-42", "YES"], false))
    );
    assert_eq!(
        packets[1],
        frame_response(build_rpc_response(Command::GetWifiNetworks, vec!["cafe", "-128", "NO"], false))
    );
    assert_eq!(packets[2], frame_response(vec![4, 0]));
}

#[test]
fn serial_credentials() {
    match parse_serial_credentials("home:secret  \r\n") {
        SerialCredentials::Credentials(c) => {
            assert_eq!(c.ssid, "home");
            assert_eq!(c.password, "secret");
        }
        _ => panic!("expected credentials"),
    }
    match parse_serial_credentials("a:b:c") {
        SerialCredentials::Credentials(c) => {
            assert_eq!(c.ssid, "a");
            assert_eq!(c.password, "b");
        }
        _ => panic!("expected credentials"),
    }
    assert!(matches!(parse_serial_credentials("ab"), SerialCredentials::Ignored));
    assert!(matches!(parse_serial_credentials("abc"), SerialCredentials::MissingPassword));
}

#[test]
fn first_matching_network_is_chosen() {
    let scanned = vec!["x".to_string(), "home".to_string(), "home".to_string()];
    assert_eq!(find_network(&scanned, "home"), Some(1));
    assert_eq!(find_network(&scanned, "work"), None);
}

use music_controller::server::{read_callback_code, read_setup_request, redirect_page, split_on};

#[test]
fn setup_form_is_read() {
    let req = read_setup_request(
        "/get_data?response_type=code&client_id=ID&client_secret=SEC&redirect_uri=x",
    )
    .unwrap();
    assert_eq!(req.client_id, "ID");
    assert_eq!(req.client_secret, "SEC");
    assert_eq!(req.args, "response_type=code&client_id=ID&client_secret=SEC&redirect_uri=x");
    assert!(read_setup_request("/get_data").is_none());
    assert!(read_setup_request("/get_data?a=1&b").is_none());
}

#[test]
fn callback_code_is_read() {
    assert_eq!(read_callback_code("/callback?code=XYZ").unwrap(), "XYZ");
    assert_eq!(read_callback_code("/callback?code=XYZ&state=1").unwrap(), "XYZ&state");
    assert!(read_callback_code("/callback").is_none());
}

#[test]
fn redirect_page_points_at_spotify() {
    let page = redirect_page("a=1");
    assert!(page.starts_with("<!DOCTYPE html>\n            <html>"));
    assert!(page.contains("content = \"1; url = https://accounts.spotify.com/authorize?a=1\" />"));
    assert!(page.ends_with("</body>\n            </html>"));
}

#[test]
fn splitting_matches_str_split() {
    for (s, sep) in [("a?b?", '?'), ("", '&'), ("&&x", '&'), ("plain", '=')] {
        let ours = split_on(s, sep);
        let std: Vec<String> = s.split(sep).map(|f| f.to_string()).collect();
        assert_eq!(ours, std);
    }
}

#[test]
fn which_commands_are_taken() {
    let taken = |c: Command, ssid: &str| command_handled(&on_command(command(c, ssid, "pw")));
    assert!(taken(Command::WifiSettings, "net"));
    assert!(taken(Command::WifiSettings, ""));
    assert!(taken(Command::GetCurrentState, ""));
    assert!(taken(Command::GetDeviceInfo, ""));
    assert!(taken(Command::GetWifiNetworks, ""));
    assert!(!taken(Command::Unknown, ""));
    assert!(!taken(Command::BadChecksum, ""));
}
