//! How the device answers Improv RPCs: the packets it sends, and the Wi-Fi
//! work (connecting, checking the link, scanning) it needs done in between.
use vstd::prelude::*;
use vstd::utf8::*;
use crate::improv::{
    build_rpc_response, error_code, fields_length, frame_error, frame_response, frame_spec,
    frame_state, rpc_response_spec, serial_type_code, state_code, str_views, Command,
    ImprovCommand, ImprovCommandView, ImprovError, ImprovSerialType, State,
};
use crate::text::{decimal, digit_char, i64_to_decimal, signed_decimal};
use crate::wifi::{WifiCredentials, WifiCredentialsView};

verus! {

broadcast use vstd::seq_lib::group_seq_properties;

/// The address the device serves its set-up page at.
pub const DEVICE_URL: &'static str = "http://music-controller.local";

/// The packet that carries a response to `command` with the given fields.
pub open spec fn response_packet(command: Command, fields: Seq<Seq<char>>) -> Seq<u8> {
    frame_spec(
        serial_type_code(ImprovSerialType::TypeRpcResponse),
        rpc_response_spec(command, fields, false),
    )
}

/// The packet that reports a state.
pub open spec fn state_packet(state: State) -> Seq<u8> {
    frame_spec(serial_type_code(ImprovSerialType::TypeCurrentState), seq![state_code(state)])
}

/// The packet that reports an error.
pub open spec fn error_packet(err: ImprovError) -> Seq<u8> {
    frame_spec(serial_type_code(ImprovSerialType::TypeErrorState), seq![error_code(err)])
}

/// The fields that describe the device.
pub open spec fn device_info_fields() -> Seq<Seq<char>> {
    seq!["music-controller"@, "1.0.0"@, "ESP32"@, "Music controller for spotify"@]
}

/// The bytes of each packet.
pub open spec fn packets_view(packets: Seq<Vec<u8>>) -> Seq<Seq<u8>> {
    packets.map_values(|p: Vec<u8>| p@)
}

/// What the device does on a command, before any Wi-Fi work.
pub enum CommandStep {
    /// Send these packets; `handled` tells whether the command was one the
    /// device serves.
    Done { packets: Vec<Vec<u8>>, handled: bool },
    /// Send these packets, then connect with these credentials and report
    /// the outcome through [`on_wifi_connected`].
    ConnectWifi { packets: Vec<Vec<u8>>, credentials: WifiCredentials },
    /// Find out whether Wi-Fi is connected and report it through
    /// [`on_connection_checked`].
    CheckConnection,
    /// Scan for networks and report them through [`on_networks_scanned`].
    ScanNetworks,
}

/// The mathematical value of a [`CommandStep`].
pub enum CommandStepView {
    Done { packets: Seq<Seq<u8>>, handled: bool },
    ConnectWifi { packets: Seq<Seq<u8>>, credentials: WifiCredentialsView },
    CheckConnection,
    ScanNetworks,
}

impl View for CommandStep {
    type V = CommandStepView;

    open spec fn view(&self) -> CommandStepView {
        match self {
            CommandStep::Done { packets, handled } => CommandStepView::Done {
                packets: packets_view(packets@),
                handled: *handled,
            },
            CommandStep::ConnectWifi { packets, credentials } => CommandStepView::ConnectWifi {
                packets: packets_view(packets@),
                credentials: credentials@,
            },
            CommandStep::CheckConnection => CommandStepView::CheckConnection,
            CommandStep::ScanNetworks => CommandStepView::ScanNetworks,
        }
    }
}

/// What the device does on a command: Wi-Fi settings with an SSID report
/// provisioning and connect, without one they are an invalid RPC; a state
/// request checks the link; a device-information request is answered at
/// once; a network request scans; anything else is an unknown RPC and is not
/// handled.
pub open spec fn on_command_spec(cmd: ImprovCommandView) -> CommandStepView {
    match cmd.command {
        Command::WifiSettings => if cmd.ssid.len() != 0 {
            CommandStepView::ConnectWifi {
                packets: seq![state_packet(State::StateProvisioning)],
                credentials: WifiCredentialsView { ssid: cmd.ssid, password: cmd.password },
            }
        } else {
            CommandStepView::Done {
                packets: seq![error_packet(ImprovError::ErrorInvalidRpc)],
                handled: true,
            }
        },
        Command::GetCurrentState => CommandStepView::CheckConnection,
        Command::GetDeviceInfo => CommandStepView::Done {
            packets: seq![response_packet(Command::GetDeviceInfo, device_info_fields())],
            handled: true,
        },
        Command::GetWifiNetworks => CommandStepView::ScanNetworks,
        _ => CommandStepView::Done {
            packets: seq![error_packet(ImprovError::ErrorUnknownRpc)],
            handled: false,
        },
    }
}

proof fn lemma_fields_length_bound(fields: Seq<Seq<char>>, bound: nat)
    requires
        forall|i: int| 0 <= i < fields.len() ==> #[trigger] encode_utf8(fields[i]).len() <= bound,
    ensures
        fields_length(fields) <= fields.len() * (bound + 1),
    decreases fields.len(),
{
    if fields.len() > 0 {
        assert(encode_utf8(fields[fields.len() - 1]).len() <= bound);
        assert forall|i: int| 0 <= i < fields.drop_last().len() implies #[trigger] encode_utf8(
            fields.drop_last()[i],
        ).len() <= bound by {
            assert(fields.drop_last()[i] == fields[i]);
        }
        lemma_fields_length_bound(fields.drop_last(), bound);
        assert(fields.len() * (bound + 1) == (fields.len() - 1) * (bound + 1) + bound + 1) by (
        nonlinear_arith);
    }
}

/// The response packet of `command` for a few short string fields.
fn short_response(command: Command, fields: Vec<&str>) -> (packet: Vec<u8>)
    requires
        forall|i: int| 0 <= i < fields@.len() ==> #[trigger] encode_utf8(fields@[i]@).len() <= 64,
        fields@.len() <= 4,
    ensures
        packet@ == response_packet(command, str_views(fields@)),
{
    proof {
        let views = str_views(fields@);
        assert forall|i: int| 0 <= i < views.len() implies #[trigger] encode_utf8(views[i]).len()
            <= 64 by {}
        lemma_fields_length_bound(views, 64);
        assert(views.len() * 65 <= 260) by (nonlinear_arith)
            requires
                views.len() <= 4,
        ;
    }
    frame_response(build_rpc_response(command, fields, false))
}

proof fn lemma_ascii_short(s: Seq<char>)
    requires
        is_ascii_chars(s),
        s.len() <= 64,
    ensures
        encode_utf8(s).len() <= 64,
{
    is_ascii_chars_encode_utf8(s);
}

fn device_url_response(command: Command) -> (packet: Vec<u8>)
    ensures
        packet@ == response_packet(command, seq![DEVICE_URL@]),
{
    proof {
        reveal_strlit("http://music-controller.local");
    }
    let fields: Vec<&str> = vec![DEVICE_URL];
    assert(str_views(fields@) == seq![DEVICE_URL@]);
    proof {
        lemma_ascii_short(DEVICE_URL@);
    }
    short_response(command, fields)
}

fn single(p: Vec<u8>) -> (v: Vec<Vec<u8>>)
    ensures
        packets_view(v@) == seq![p@],
{
    let v: Vec<Vec<u8>> = vec![p];
    assert(packets_view(v@) =~= seq![v@[0]@]);
    v
}

/// Whether the device took the command, once its step is carried out: a
/// step with Wi-Fi work is always taken; a finished step says so itself.
pub open spec fn step_handled(step: CommandStepView) -> bool {
    match step {
        CommandStepView::Done { handled, .. } => handled,
        _ => true,
    }
}

/// Whether the device takes the command whose step this is, as it reports
/// to the receiver after carrying the step out.
pub fn command_handled(step: &CommandStep) -> (h: bool)
    ensures
        h == step_handled(step@),
{
    match step {
        CommandStep::Done { handled, .. } => *handled,
        _ => true,
    }
}

/// Decides what the device does on a decoded RPC. Every command but an
/// unknown one or one with a bad checksum is taken.
pub fn on_command(cmd: ImprovCommand) -> (step: CommandStep)
    ensures
        step@ == on_command_spec(cmd@),
        step_handled(step@) == !(cmd.command == Command::Unknown || cmd.command == Command::BadChecksum),
{
    match cmd.command {
        Command::WifiSettings => {
            if !cmd.ssid.as_str().is_empty() {
                let packets = single(frame_state(State::StateProvisioning));
                let credentials = WifiCredentials { ssid: cmd.ssid, password: cmd.password };
                CommandStep::ConnectWifi { packets, credentials }
            } else {
                let packets = single(frame_error(ImprovError::ErrorInvalidRpc));
                CommandStep::Done { packets, handled: true }
            }
        },
        Command::GetCurrentState => CommandStep::CheckConnection,
        Command::GetDeviceInfo => {
            proof {
                reveal_strlit("music-controller");
                reveal_strlit("1.0.0");
                reveal_strlit("ESP32");
                reveal_strlit("Music controller for spotify");
            }
            let infos: Vec<&str> = vec!["music-controller", "1.0.0", "ESP32", "Music controller for spotify"];
            assert(str_views(infos@) =~= device_info_fields());
            proof {
                lemma_ascii_short("music-controller"@);
                lemma_ascii_short("1.0.0"@);
                lemma_ascii_short("ESP32"@);
                lemma_ascii_short("Music controller for spotify"@);
            }
            let packets = single(short_response(Command::GetDeviceInfo, infos));
            CommandStep::Done { packets, handled: true }
        },
        Command::GetWifiNetworks => CommandStep::ScanNetworks,
        _ => {
            let packets = single(frame_error(ImprovError::ErrorUnknownRpc));
            CommandStep::Done { packets, handled: false }
        },
    }
}

/// The packets that follow an attempt to connect with provisioned
/// credentials: provisioned and the device's address on success, stopped
/// and unable-to-connect on failure.
pub open spec fn wifi_connected_packets(connected: bool) -> Seq<Seq<u8>> {
    if connected {
        seq![
            state_packet(State::StateProvisioned),
            response_packet(Command::WifiSettings, seq![DEVICE_URL@]),
        ]
    } else {
        seq![state_packet(State::StateStopped), error_packet(ImprovError::ErrorUnableToConnect)]
    }
}

/// Reports the outcome of connecting with provisioned credentials.
pub fn on_wifi_connected(connected: bool) -> (packets: Vec<Vec<u8>>)
    ensures
        packets_view(packets@) == wifi_connected_packets(connected),
{
    if connected {
        let a = frame_state(State::StateProvisioned);
        let b = device_url_response(Command::WifiSettings);
        let packets: Vec<Vec<u8>> = vec![a, b];
        assert(packets_view(packets@) =~= wifi_connected_packets(connected));
        packets
    } else {
        let a = frame_state(State::StateStopped);
        let b = frame_error(ImprovError::ErrorUnableToConnect);
        let packets: Vec<Vec<u8>> = vec![a, b];
        assert(packets_view(packets@) =~= wifi_connected_packets(connected));
        packets
    }
}

/// The packets that answer a state request: provisioned and the device's
/// address when Wi-Fi is connected, authorized otherwise.
pub open spec fn connection_checked_packets(connected: bool) -> Seq<Seq<u8>> {
    if connected {
        seq![
            state_packet(State::StateProvisioned),
            response_packet(Command::GetCurrentState, seq![DEVICE_URL@]),
        ]
    } else {
        seq![state_packet(State::StateAuthorized)]
    }
}

/// Answers a state request once the link has been checked.
pub fn on_connection_checked(connected: bool) -> (packets: Vec<Vec<u8>>)
    ensures
        packets_view(packets@) == connection_checked_packets(connected),
{
    if connected {
        let a = frame_state(State::StateProvisioned);
        let b = device_url_response(Command::GetCurrentState);
        let packets: Vec<Vec<u8>> = vec![a, b];
        assert(packets_view(packets@) =~= connection_checked_packets(connected));
        packets
    } else {
        let a = frame_state(State::StateAuthorized);
        let packets: Vec<Vec<u8>> = vec![a];
        assert(packets_view(packets@) =~= connection_checked_packets(connected));
        packets
    }
}

/// A network found by a scan.
pub struct NetworkInfo {
    pub ssid: String,
    pub signal_strength: i8,
    pub has_auth: bool,
}

/// The fields that describe a network: its SSID, its signal strength in
/// decimal, and whether it asks for authentication.
pub open spec fn network_fields(n: NetworkInfo) -> Seq<Seq<char>> {
    seq![n.ssid@, signed_decimal(n.signal_strength as int), if n.has_auth {
        "YES"@
    } else {
        "NO"@
    }]
}

/// The packets that answer a network request: one response per network,
/// in scan order, then an empty response.
pub open spec fn scan_packets(networks: Seq<NetworkInfo>) -> Seq<Seq<u8>> {
    networks.map_values(|n: NetworkInfo| response_packet(Command::GetWifiNetworks, network_fields(n)))
        .push(response_packet(Command::GetWifiNetworks, Seq::empty()))
}

proof fn lemma_decimal_short(n: nat)
    ensures
        is_ascii_chars(decimal(n)),
        n < 10 ==> decimal(n).len() == 1,
        n < 100 ==> decimal(n).len() <= 2,
        n < 1000 ==> decimal(n).len() <= 3,
    decreases n,
{
    if n >= 10 {
        lemma_decimal_short(n / 10);
        assert(digit_char(n % 10) <= '9');
    }
    assert(decimal(n).last() == digit_char(n % 10));
    assert forall|i: int| 0 <= i < decimal(n).len() implies '\0' <= #[trigger] decimal(n)[i]
        <= '\u{7f}' by {
        if n >= 10 && i < decimal(n).len() - 1 {
            assert(decimal(n)[i] == decimal(n / 10)[i]);
        }
    }
}

/// The response packet that describes one network.
fn network_response(fields: Vec<&str>) -> (packet: Vec<u8>)
    requires
        fields@.len() == 3,
        encode_utf8(fields@[0]@).len() <= usize::MAX - 16,
        encode_utf8(fields@[1]@).len() <= 4,
        encode_utf8(fields@[2]@).len() <= 3,
    ensures
        packet@ == response_packet(Command::GetWifiNetworks, str_views(fields@)),
{
    proof {
        let v = str_views(fields@);
        let v2 = v.drop_last();
        let v1 = v2.drop_last();
        assert(v1.drop_last() =~= Seq::<Seq<char>>::empty());
        assert(fields_length(v1.drop_last()) == 0);
        assert(v1.last() == v[0]);
        assert(v2.last() == v[1]);
        assert(v.last() == v[2]);
        assert(fields_length(v1) == encode_utf8(v[0]).len() + 1);
        assert(fields_length(v2) == fields_length(v1) + encode_utf8(v[1]).len() + 1);
        assert(fields_length(v) == fields_length(v2) + encode_utf8(v[2]).len() + 1);
    }
    frame_response(build_rpc_response(Command::GetWifiNetworks, fields, false))
}

/// Answers a network request with the networks a scan found (an SSID
/// leaves room in a `usize` for the length of the fields that follow it).
pub fn on_networks_scanned(networks: &Vec<NetworkInfo>) -> (packets: Vec<Vec<u8>>)
    requires
        forall|i: int|
            0 <= i < networks@.len() ==> #[trigger] encode_utf8(networks@[i].ssid@).len() <= usize::MAX - 16,
    ensures
        packets_view(packets@) == scan_packets(networks@),
{
    let mut packets: Vec<Vec<u8>> = Vec::new();
    proof {
        reveal_strlit("YES");
        reveal_strlit("NO");
    }
    for k in 0..networks.len()
        invariant
            forall|i: int|
                0 <= i < networks@.len() ==> #[trigger] encode_utf8(networks@[i].ssid@).len() <= usize::MAX - 16,
            "YES"@ == seq!['Y', 'E', 'S'],
            "NO"@ == seq!['N', 'O'],
            packets_view(packets@) == networks@.take(k as int).map_values(
                |n: NetworkInfo| response_packet(Command::GetWifiNetworks, network_fields(n)),
            ),
    {
        let n = &networks[k];
        let rssi = i64_to_decimal(n.signal_strength as i64);
        let auth: &str = if n.has_auth {
            "YES"
        } else {
            "NO"
        };
        proof {
            let v = n.signal_strength as int;
            if v < 0 {
                lemma_decimal_short((-v) as nat);
                assert(is_ascii_chars(signed_decimal(v))) by {
                    assert forall|i: int| 0 <= i < signed_decimal(v).len() implies '\0'
                        <= #[trigger] signed_decimal(v)[i] <= '\u{7f}' by {
                        if i > 0 {
                            assert(signed_decimal(v)[i] == decimal((-v) as nat)[i - 1]);
                        }
                    }
                }
            } else {
                lemma_decimal_short(v as nat);
            }
            assert(signed_decimal(v).len() <= 4);
            is_ascii_chars_encode_utf8(signed_decimal(v));
            assert(is_ascii_chars("YES"@));
            assert(is_ascii_chars("NO"@));
            is_ascii_chars_encode_utf8("YES"@);
            is_ascii_chars_encode_utf8("NO"@);
            assert(encode_utf8(networks@[k as int].ssid@).len() <= usize::MAX - 16);
        }
        let fields: Vec<&str> = vec![n.ssid.as_str(), rssi.as_str(), auth];
        assert(str_views(fields@) == network_fields(networks@[k as int]));
        let packet = network_response(fields);
        let ghost before = packets@;
        packets.push(packet);
        proof {
            assert(networks@.take(k + 1).drop_last() == networks@.take(k as int));
            assert(packets_view(packets@) =~= packets_view(before).push(packet@));
            assert(networks@.take(k + 1).map_values(
                |n: NetworkInfo| response_packet(Command::GetWifiNetworks, network_fields(n)),
            ) =~= networks@.take(k as int).map_values(
                |n: NetworkInfo| response_packet(Command::GetWifiNetworks, network_fields(n)),
            ).push(response_packet(Command::GetWifiNetworks, network_fields(networks@[k as int]))));
        }
    }
    let empty: Vec<&str> = Vec::new();
    assert(str_views(empty@) == Seq::<Seq<char>>::empty());
    let last = short_response(Command::GetWifiNetworks, empty);
    packets.push(last);
    assert(networks@.take(networks@.len() as int) == networks@);
    assert(packets_view(packets@) =~= scan_packets(networks@));
    packets
}

} // verus!
