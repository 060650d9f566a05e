use music_controller::improv::{
    build_rpc_response, checked_parse_improv_data, checksum_of, finish_command, frame_error,
    frame_packet, frame_response, frame_state, parse_improv_data, parse_improve_serial_byte,
    receiver_can_take, serial_byte_is_readable, try_read_improv_data, Command, ImprovError,
    ImprovReceiver, ImprovSerialType, SerialEvent, State,
};

#[test]
fn build_response_without_checksum() {
    let out = build_rpc_response(Command::WifiSettings, vec!["ab", "c"], false);
    assert_eq!(out, vec![1, 5, 2, 97, 98, 1, 99]);
}

#[test]
fn build_response_with_checksum() {
    let out = build_rpc_response(Command::WifiSettings, vec!["ab", "c"], true);
    assert_eq!(out, vec![1, 5, 2, 97, 98, 1, 99, 47]);
}

#[test]
fn build_response_counts_utf8_bytes_but_keeps_low_bytes() {
    // 'é' is two bytes of UTF-8 (U+00E9) but one low byte is written.
    let out = build_rpc_response(Command::GetDeviceInfo, vec!["é"], false);
    assert_eq!(out, vec![3, 3, 2, 0xE9]);
}

#[test]
fn build_empty_response() {
    let out = build_rpc_response(Command::GetWifiNetworks, vec![], false);
    assert_eq!(out, vec![4, 0]);
}

#[test]
fn parse_wifi_settings_round_trip() {
    let data = build_rpc_response(Command::WifiSettings, vec!["ab", "c"], false);
    let len = data.len();
    let cmd = parse_improv_data(data, len, false);
    assert_eq!(cmd.command, Command::WifiSettings);
    assert_eq!(cmd.ssid, "ab");
    assert_eq!(cmd.password, "c");
}

#[test]
fn parse_checksummed_payload_sums_its_own_checksum() {
    let data = build_rpc_response(Command::WifiSettings, vec!["ab", "c"], true);
    let len = data.len();
    let cmd = parse_improv_data(data, len, true);
    assert_eq!(cmd.command, Command::BadChecksum);
    assert_eq!(cmd.ssid, "");
}

#[test]
fn parse_checksummed_payload_with_zero_checksum() {
    let data = build_rpc_response(Command::WifiSettings, vec!["ab", "(\n"], true);
    assert_eq!(*data.last().unwrap(), 0);
    let len = data.len();
    let cmd = parse_improv_data(data, len, true);
    assert_eq!(cmd.command, Command::WifiSettings);
    assert_eq!(cmd.ssid, "ab");
    assert_eq!(cmd.password, "(\n");
}

#[test]
fn parse_length_mismatch_is_unknown() {
    let cmd = parse_improv_data(vec![3, 9], 2, false);
    assert_eq!(cmd.command, Command::Unknown);
}

#[test]
fn parse_other_command() {
    let cmd = parse_improv_data(vec![3, 0], 2, false);
    assert_eq!(cmd.command, Command::GetDeviceInfo);
    assert_eq!(cmd.password, "");
}

#[test]
fn checked_parse_refuses_unknown_command_byte() {
    assert!(checked_parse_improv_data(vec![9, 0], 2, false).is_none());
    assert!(checked_parse_improv_data(vec![1], 1, false).is_none());
}

#[test]
fn checked_parse_refuses_bad_utf8() {
    let data = vec![1, 4, 1, 0xFF, 1, b'a'];
    assert!(checked_parse_improv_data(data, 6, false).is_none());
}

#[test]
fn checked_parse_accepts_good_payload() {
    let data = build_rpc_response(Command::WifiSettings, vec!["net", "pw"], false);
    let len = data.len();
    let cmd = checked_parse_improv_data(data, len, false).unwrap();
    assert_eq!(cmd.ssid, "net");
    assert_eq!(cmd.password, "pw");
}

#[test]
fn command_try_from_bytes() {
    assert_eq!(Command::try_from(255).unwrap(), Command::BadChecksum);
    assert_eq!(Command::try_from(4).unwrap(), Command::GetWifiNetworks);
    assert_eq!(Command::try_from(7).unwrap_err(), "Bad conversion for 7 to Command Enum");
}

#[test]
fn checksum_wraps() {
    assert_eq!(checksum_of(&[200, 100]), 44);
    assert_eq!(checksum_of(&[]), 0);
}

#[test]
fn state_frame() {
    assert_eq!(frame_state(State::StateProvisioned), vec![73, 77, 80, 82, 79, 86, 1, 1, 1, 4, 228]);
}

#[test]
fn error_frame() {
    let p = frame_error(ImprovError::ErrorUnableToConnect);
    assert_eq!(p[..10], [73, 77, 80, 82, 79, 86, 1, 2, 1, 3]);
    assert_eq!(p[10], ((477u32 + 1 + 2 + 1 + 3) % 256) as u8);
}

#[test]
fn response_frame_carries_length() {
    let p = frame_response(vec![3, 0]);
    assert_eq!(p[..11], [73, 77, 80, 82, 79, 86, 1, 4, 2, 3, 0]);
    assert_eq!(p.len(), 12);
}

fn wifi_packet(ssid: &str, password: &str) -> Vec<u8> {
    let payload = build_rpc_response(Command::WifiSettings, vec![ssid, password], false);
    frame_packet(ImprovSerialType::TypeRpc, payload)
}

#[test]
fn receiver_takes_a_wifi_packet() {
    let packet = wifi_packet("home", "secret");
    let mut receiver = ImprovReceiver::new();
    for (i, byte) in packet.iter().enumerate() {
        assert!(receiver_can_take(&receiver, *byte));
        let ev = try_read_improv_data(&mut receiver, *byte);
        if i + 1 < packet.len() {
            assert!(matches!(ev, SerialEvent::Accepted));
            assert_eq!(receiver.position(), i + 1);
        } else {
            match ev {
                SerialEvent::Command(cmd) => {
                    assert_eq!(cmd.command, Command::WifiSettings);
                    assert_eq!(cmd.ssid, "home");
                    assert_eq!(cmd.password, "secret");
                }
                _ => panic!("the last byte completes the packet"),
            }
            finish_command(&mut receiver, *byte, true);
            assert_eq!(receiver.position(), packet.len());
        }
    }
    // The next byte is past the packet and starts over.
    let ev = try_read_improv_data(&mut receiver, 73);
    assert!(matches!(ev, SerialEvent::Rejected));
    assert_eq!(receiver.position(), 0);
}

#[test]
fn receiver_rejects_wrong_header() {
    let mut receiver = ImprovReceiver::new();
    assert!(matches!(try_read_improv_data(&mut receiver, b'I'), SerialEvent::Accepted));
    assert!(matches!(try_read_improv_data(&mut receiver, b'X'), SerialEvent::Rejected));
    assert_eq!(receiver.position(), 0);
}

#[test]
fn receiver_reports_bad_checksum() {
    let mut packet = wifi_packet("a", "b");
    let last = packet.len() - 1;
    packet[last] = packet[last].wrapping_add(1);
    let mut receiver = ImprovReceiver::new();
    let mut last_event = None;
    for byte in packet.iter() {
        last_event = Some(try_read_improv_data(&mut receiver, *byte));
    }
    assert!(matches!(last_event, Some(SerialEvent::ChecksumError)));
    assert_eq!(receiver.position(), 0);
}

#[test]
fn non_rpc_packet_is_not_a_command() {
    let packet = frame_packet(ImprovSerialType::TypeCurrentState, vec![2]);
    let mut buffer = vec![0u8; 200];
    let mut event = None;
    for (i, byte) in packet.iter().enumerate() {
        event = Some(parse_improve_serial_byte(i, *byte, &buffer));
        buffer[i] = *byte;
    }
    assert!(matches!(event, Some(SerialEvent::Rejected)));
}

#[test]
fn unreadable_serial_byte_is_reported() {
    // A length byte of 250 cannot be followed in a byte-sized offset.
    let buffer = [73, 77, 80, 82, 79, 86, 1, 3, 250];
    assert!(!serial_byte_is_readable(9, 0, &buffer));
    assert!(serial_byte_is_readable(3, 0, &buffer));
}

#[test]
fn receiver_refuses_to_overflow_its_buffer() {
    let mut receiver = ImprovReceiver::new();
    for byte in [73u8, 77, 80, 82, 79, 86, 1, 3, 240] {
        try_read_improv_data(&mut receiver, byte);
    }
    for _ in 9..200 {
        try_read_improv_data(&mut receiver, 0);
    }
    assert_eq!(receiver.position(), 200);
    assert!(!receiver_can_take(&receiver, 0));
}

#[test]
fn long_wifi_settings_round_trip() {
    let ssid = "s".repeat(200);
    let password = "p".repeat(51);
    let data = build_rpc_response(Command::WifiSettings, vec![ssid.as_str(), password.as_str()], false);
    assert_eq!(data.len(), 4 + 200 + 51);
    let len = data.len();
    let cmd = parse_improv_data(data, len, false);
    assert_eq!(cmd.command, Command::WifiSettings);
    assert_eq!(cmd.ssid, ssid);
    assert_eq!(cmd.password, password);
}

#[test]
fn checksum_is_appended() {
    let without = build_rpc_response(Command::GetDeviceInfo, vec!["music", "1.0"], false);
    let with = build_rpc_response(Command::GetDeviceInfo, vec!["music", "1.0"], true);
    assert_eq!(with.len(), without.len() + 1);
    assert_eq!(&with[..without.len()], &without[..]);
    assert_eq!(with[without.len()], without.iter().fold(0u8, |x, y| x.wrapping_add(*y)));
    assert_eq!(with[without.len()], checksum_of(&without));
}
