//! The Improv Wi-Fi serial protocol: RPC payloads, their checksums, the
//! framing of outgoing packets and the byte-by-byte recognition of incoming ones.
use vstd::prelude::*;
use vstd::utf8::*;
use crate::text::{copy_range, decimal, string_from_utf8, u64_to_decimal};

verus! {

broadcast use vstd::seq_lib::group_seq_properties;

/// The protocol version this device speaks.
pub const VERSION: u8 = 1;

/// Error codes reported to the provisioning client.
#[derive(Clone, Copy, Debug, PartialEq, Eq, Structural)]
pub enum ImprovError {
    _ErrorNone,
    ErrorInvalidRpc,
    ErrorUnknownRpc,
    ErrorUnableToConnect,
    _ErrorNotAuthorized,
    _ErrorUnknown,
}

/// Provisioning states reported to the client.
#[derive(Clone, Copy, Debug, PartialEq, Eq, Structural)]
pub enum State {
    StateStopped,
    _StateAwaitingAuthorization,
    StateAuthorized,
    StateProvisioning,
    StateProvisioned,
}

/// RPC commands; `BadChecksum` marks a payload whose checksum did not match.
#[derive(Clone, Copy, Debug, PartialEq, Eq, Structural)]
pub enum Command {
    Unknown,
    WifiSettings,
    GetCurrentState,
    GetDeviceInfo,
    GetWifiNetworks,
    BadChecksum,
}

/// Packet types of the serial framing.
#[derive(Clone, Copy, Debug, PartialEq, Eq, Structural)]
pub enum ImprovSerialType {
    TypeCurrentState,
    TypeErrorState,
    TypeRpc,
    TypeRpcResponse,
}

/// The wire code of an error.
pub open spec fn error_code(e: ImprovError) -> u8 {
    match e {
        ImprovError::_ErrorNone => 0x00,
        ImprovError::ErrorInvalidRpc => 0x01,
        ImprovError::ErrorUnknownRpc => 0x02,
        ImprovError::ErrorUnableToConnect => 0x03,
        ImprovError::_ErrorNotAuthorized => 0x04,
        ImprovError::_ErrorUnknown => 0xFF,
    }
}

/// The wire code of a state.
pub open spec fn state_code(s: State) -> u8 {
    match s {
        State::StateStopped => 0x00,
        State::_StateAwaitingAuthorization => 0x01,
        State::StateAuthorized => 0x02,
        State::StateProvisioning => 0x03,
        State::StateProvisioned => 0x04,
    }
}

/// The wire code of a command.
pub open spec fn command_code(c: Command) -> u8 {
    match c {
        Command::Unknown => 0x00,
        Command::WifiSettings => 0x01,
        Command::GetCurrentState => 0x02,
        Command::GetDeviceInfo => 0x03,
        Command::GetWifiNetworks => 0x04,
        Command::BadChecksum => 0xFF,
    }
}

/// The wire code of a packet type.
pub open spec fn serial_type_code(t: ImprovSerialType) -> u8 {
    match t {
        ImprovSerialType::TypeCurrentState => 0x01,
        ImprovSerialType::TypeErrorState => 0x02,
        ImprovSerialType::TypeRpc => 0x03,
        ImprovSerialType::TypeRpcResponse => 0x04,
    }
}

/// The command a byte names, if it names one.
pub open spec fn command_from_code(b: u8) -> Option<Command> {
    if b == 0 {
        Some(Command::Unknown)
    } else if b == 1 {
        Some(Command::WifiSettings)
    } else if b == 2 {
        Some(Command::GetCurrentState)
    } else if b == 3 {
        Some(Command::GetDeviceInfo)
    } else if b == 4 {
        Some(Command::GetWifiNetworks)
    } else if b == 255 {
        Some(Command::BadChecksum)
    } else {
        None
    }
}

impl ImprovError {
    pub fn code(&self) -> (b: u8)
        ensures
            b == error_code(*self),
    {
        match self {
            ImprovError::_ErrorNone => 0x00,
            ImprovError::ErrorInvalidRpc => 0x01,
            ImprovError::ErrorUnknownRpc => 0x02,
            ImprovError::ErrorUnableToConnect => 0x03,
            ImprovError::_ErrorNotAuthorized => 0x04,
            ImprovError::_ErrorUnknown => 0xFF,
        }
    }
}

impl State {
    pub fn code(&self) -> (b: u8)
        ensures
            b == state_code(*self),
    {
        match self {
            State::StateStopped => 0x00,
            State::_StateAwaitingAuthorization => 0x01,
            State::StateAuthorized => 0x02,
            State::StateProvisioning => 0x03,
            State::StateProvisioned => 0x04,
        }
    }
}

impl ImprovSerialType {
    pub fn code(&self) -> (b: u8)
        ensures
            b == serial_type_code(*self),
    {
        match self {
            ImprovSerialType::TypeCurrentState => 0x01,
            ImprovSerialType::TypeErrorState => 0x02,
            ImprovSerialType::TypeRpc => 0x03,
            ImprovSerialType::TypeRpcResponse => 0x04,
        }
    }
}

impl Command {
    pub fn code(&self) -> (b: u8)
        ensures
            b == command_code(*self),
    {
        match self {
            Command::Unknown => 0x00,
            Command::WifiSettings => 0x01,
            Command::GetCurrentState => 0x02,
            Command::GetDeviceInfo => 0x03,
            Command::GetWifiNetworks => 0x04,
            Command::BadChecksum => 0xFF,
        }
    }

    /// The command a byte names; any other byte is refused with a message
    /// naming it.
    pub fn try_from(value: u8) -> (r: Result<Command, String>)
        ensures
            command_from_code(value) matches Some(c) ==> r == Ok::<Command, String>(c),
            command_from_code(value) is None ==> r is Err,
            r matches Err(msg) ==> msg@ == seq!['B', 'a', 'd', ' ', 'c', 'o', 'n', 'v', 'e', 'r', 's', 'i', 'o', 'n', ' ', 'f', 'o', 'r', ' ']
                + decimal(value as nat) + seq![' ', 't', 'o', ' ', 'C', 'o', 'm', 'm', 'a', 'n', 'd', ' ', 'E', 'n', 'u', 'm'],
    {
        if value == 0 {
            Ok(Command::Unknown)
        } else if value == 1 {
            Ok(Command::WifiSettings)
        } else if value == 2 {
            Ok(Command::GetCurrentState)
        } else if value == 3 {
            Ok(Command::GetDeviceInfo)
        } else if value == 4 {
            Ok(Command::GetWifiNetworks)
        } else if value == 255 {
            Ok(Command::BadChecksum)
        } else {
            let prefix = "Bad conversion for ";
            let suffix = " to Command Enum";
            proof {
                reveal_strlit("Bad conversion for ");
                reveal_strlit(" to Command Enum");
            }
            let mut msg = String::new();
            msg.append(prefix);
            let number = u64_to_decimal(value as u64);
            msg.append(number.as_str());
            msg.append(suffix);
            Err(msg)
        }
    }
}

/// A decoded RPC: the command and, for Wi-Fi settings, the credentials.
pub struct ImprovCommand {
    pub command: Command,
    pub ssid: String,
    pub password: String,
}

/// The mathematical value of an [`ImprovCommand`].
pub struct ImprovCommandView {
    pub command: Command,
    pub ssid: Seq<char>,
    pub password: Seq<char>,
}

impl View for ImprovCommand {
    type V = ImprovCommandView;

    open spec fn view(&self) -> ImprovCommandView {
        ImprovCommandView { command: self.command, ssid: self.ssid@, password: self.password@ }
    }
}

/// A command with no credentials.
pub open spec fn bare_command(c: Command) -> ImprovCommandView {
    ImprovCommandView { command: c, ssid: Seq::empty(), password: Seq::empty() }
}

fn bare(c: Command) -> (r: ImprovCommand)
    ensures
        r@ == bare_command(c),
{
    ImprovCommand { command: c, ssid: String::new(), password: String::new() }
}

/// The sum of the bytes.
pub open spec fn byte_sum(s: Seq<u8>) -> nat
    decreases s.len(),
{
    if s.len() == 0 {
        0
    } else {
        byte_sum(s.drop_last()) + s.last() as nat
    }
}

/// The 8-bit checksum of the protocol: the byte sum modulo 256.
pub open spec fn checksum(s: Seq<u8>) -> u8 {
    (byte_sum(s) % 256) as u8
}

/// The checksum of the first `n` bytes of `data`, summed with wrapping addition.
pub fn checksum_prefix(data: &[u8], n: usize) -> (sum: u8)
    requires
        n <= data@.len(),
    ensures
        sum == checksum(data@.take(n as int)),
{
    let mut sum: u8 = 0;
    let mut i: usize = 0;
    while i < n
        invariant
            i <= n <= data@.len(),
            sum == checksum(data@.take(i as int)),
        decreases n - i,
    {
        let ghost before = sum;
        sum = sum.wrapping_add(data[i]);
        proof {
            assert(data@.take(i + 1).drop_last() == data@.take(i as int));
            assert(byte_sum(data@.take(i + 1)) == byte_sum(data@.take(i as int)) + data@[i as int]);
            vstd::arithmetic::div_mod::lemma_add_mod_noop(
                byte_sum(data@.take(i as int)) as int,
                data@[i as int] as int,
                256,
            );
            vstd::arithmetic::div_mod::lemma_small_mod(data@[i as int] as nat, 256);
        }
        i = i + 1;
    }
    sum
}

/// The checksum of all of `data`.
pub fn checksum_of(data: &[u8]) -> (sum: u8)
    ensures
        sum == checksum(data@),
{
    let s = checksum_prefix(data, data.len());
    assert(data@.take(data@.len() as int) == data@);
    s
}

// ---------------------------------------------------------------------------
// RPC payloads: parsing
// ---------------------------------------------------------------------------

/// 1 where the payload carries a trailing checksum byte, else 0.
pub open spec fn checksum_width(check: bool) -> int {
    if check {
        1
    } else {
        0
    }
}

/// The payload's length byte agrees with the length the caller announced.
pub open spec fn length_field_matches(data: Seq<u8>, length: int, check: bool) -> bool {
    data[1] == (length - 2 - checksum_width(check)) % 256
}

/// The byte at `length - 1` is the checksum of the whole of `data`.
pub open spec fn checksum_matches(data: Seq<u8>, length: int) -> bool {
    checksum(data) == data[length - 1]
}

/// Where the SSID of Wi-Fi settings ends.
pub open spec fn ssid_end(data: Seq<u8>) -> int {
    3 + data[2]
}

/// Where the password of Wi-Fi settings starts.
pub open spec fn pass_start(data: Seq<u8>) -> int {
    ssid_end(data) + 1
}

/// Where the password of Wi-Fi settings ends.
pub open spec fn pass_end(data: Seq<u8>) -> int {
    pass_start(data) + data[ssid_end(data)]
}

/// The Wi-Fi settings fields can be read: their bounds fit in a byte and in
/// the payload, and both fields are valid UTF-8.
pub open spec fn wifi_fields_readable(data: Seq<u8>) -> bool {
    &&& data.len() > 2
    &&& ssid_end(data) < 255
    &&& ssid_end(data) < data.len()
    &&& pass_end(data) <= 255
    &&& pass_end(data) <= data.len()
    &&& valid_utf8(data.subrange(3, ssid_end(data)))
    &&& valid_utf8(data.subrange(pass_start(data), pass_end(data)))
}

/// The inputs on which [`parse_improv_data`] completes: the command byte is
/// known, the announced length leaves room for the header, and every byte it
/// reads is there.
pub open spec fn parse_improv_data_accepts(data: Seq<u8>, length: int, check: bool) -> bool {
    &&& data.len() >= 2
    &&& command_from_code(data[0]) is Some
    &&& length >= 2 + checksum_width(check)
    &&& length_field_matches(data, length, check) ==> {
        &&& (check ==> length - 1 < data.len())
        &&& ((!check || checksum_matches(data, length)) && data[0] == 1) ==> wifi_fields_readable(data)
    }
}

/// The command a payload carries: `Unknown` when its length byte disagrees,
/// `BadChecksum` when its checksum is checked and wrong, and otherwise its
/// command, with the SSID and password for Wi-Fi settings.
pub open spec fn parse_improv_data_spec(data: Seq<u8>, length: int, check: bool) -> ImprovCommandView {
    let command = command_from_code(data[0])->0;
    if !length_field_matches(data, length, check) {
        bare_command(Command::Unknown)
    } else if check && !checksum_matches(data, length) {
        bare_command(Command::BadChecksum)
    } else if command == Command::WifiSettings {
        ImprovCommandView {
            command,
            ssid: decode_utf8(data.subrange(3, ssid_end(data))),
            password: decode_utf8(data.subrange(pass_start(data), pass_end(data))),
        }
    } else {
        bare_command(command)
    }
}

/// Decodes an RPC payload `[command, length, data.., checksum?]` of announced
/// total length `length`.
pub fn parse_improv_data(data: Vec<u8>, length: usize, check_checksum: bool) -> (cmd: ImprovCommand)
    requires
        parse_improv_data_accepts(data@, length as int, check_checksum),
    ensures
        cmd@ == parse_improv_data_spec(data@, length as int, check_checksum),
{
    let command = match Command::try_from(data[0]) {
        Ok(c) => c,
        Err(_) => {
            assert(false);
            Command::Unknown
        },
    };
    let data_length = data[1];
    let check_checksum_val: usize = if check_checksum {
        1
    } else {
        0
    };
    if data_length != ((length - 2 - check_checksum_val) % 256) as u8 {
        return bare(Command::Unknown);
    }
    if check_checksum {
        let checksum = data[length - 1];
        let calculated_checksum = checksum_of(data.as_slice());
        if calculated_checksum != checksum {
            return bare(Command::BadChecksum);
        }
    }
    match command {
        Command::WifiSettings => {
            let ssid_length = data[2];
            let ssid_start: u8 = 3;
            let ssid_end: u8 = ssid_start + ssid_length;
            let pass_length = data[ssid_end as usize];
            let pass_start: u8 = ssid_end + 1;
            let pass_end: u8 = pass_start + pass_length;
            let ssid_bytes = copy_range(data.as_slice(), ssid_start as usize, ssid_end as usize);
            let pass_bytes = copy_range(data.as_slice(), pass_start as usize, pass_end as usize);
            let ssid = match string_from_utf8(ssid_bytes) {
                Some(s) => s,
                None => {
                    assert(false);
                    String::new()
                },
            };
            let password = match string_from_utf8(pass_bytes) {
                Some(s) => s,
                None => {
                    assert(false);
                    String::new()
                },
            };
            ImprovCommand { command, ssid, password }
        },
        _ => bare(command),
    }
}

/// [`parse_improv_data`] on any input: `None` exactly where it cannot complete.
pub fn checked_parse_improv_data(data: Vec<u8>, length: usize, check_checksum: bool) -> (r: Option<
    ImprovCommand,
>)
    ensures
        r is Some <==> parse_improv_data_accepts(data@, length as int, check_checksum),
        r matches Some(cmd) ==> cmd@ == parse_improv_data_spec(data@, length as int, check_checksum),
{
    if data.len() < 2 {
        return None;
    }
    let known = match Command::try_from(data[0]) {
        Ok(_) => true,
        Err(_) => false,
    };
    if !known {
        return None;
    }
    let width: usize = if check_checksum {
        1
    } else {
        0
    };
    if length < 2 + width {
        return None;
    }
    if data[1] == ((length - 2 - width) % 256) as u8 {
        if check_checksum && length - 1 >= data.len() {
            return None;
        }
        let checksum_ok = !check_checksum || checksum_of(data.as_slice()) == data[length - 1];
        if checksum_ok && data[0] == 1 {
            if data.len() <= 2 {
                return None;
            }
            let ssid_end: usize = 3 + data[2] as usize;
            if ssid_end >= 255 || ssid_end >= data.len() {
                return None;
            }
            let pass_start: usize = ssid_end + 1;
            let pass_end: usize = pass_start + data[ssid_end] as usize;
            if pass_end > 255 || pass_end > data.len() {
                return None;
            }
            let ssid_ok = string_from_utf8(copy_range(data.as_slice(), 3, ssid_end)).is_some();
            let pass_ok = string_from_utf8(copy_range(data.as_slice(), pass_start, pass_end)).is_some();
            if !ssid_ok || !pass_ok {
                return None;
            }
        }
    }
    Some(parse_improv_data(data, length, check_checksum))
}

// ---------------------------------------------------------------------------
// RPC payloads: building
// ---------------------------------------------------------------------------

/// The low byte of a character's code point (what `char as u8` keeps).
pub open spec fn low_byte(c: char) -> u8 {
    ((c as u32) % 256) as u8
}

/// The low byte of each character.
pub open spec fn low_bytes(s: Seq<char>) -> Seq<u8> {
    s.map_values(|c: char| low_byte(c))
}

/// One string field of a response: its UTF-8 length (low byte), then the
/// low byte of each character.
pub open spec fn field_bytes(s: Seq<char>) -> Seq<u8> {
    seq![(encode_utf8(s).len() % 256) as u8] + low_bytes(s)
}

/// All string fields of a response, in order.
pub open spec fn fields_bytes(datum: Seq<Seq<char>>) -> Seq<u8>
    decreases datum.len(),
{
    if datum.len() == 0 {
        Seq::empty()
    } else {
        fields_bytes(datum.drop_last()) + field_bytes(datum.last())
    }
}

/// The length a response announces: the UTF-8 length of each field plus one.
pub open spec fn fields_length(datum: Seq<Seq<char>>) -> nat
    decreases datum.len(),
{
    if datum.len() == 0 {
        0
    } else {
        fields_length(datum.drop_last()) + encode_utf8(datum.last()).len() + 1
    }
}

/// The views of the strings.
pub open spec fn str_views(datum: Seq<&str>) -> Seq<Seq<char>> {
    datum.map_values(|s: &str| s@)
}

/// A response payload: command code, announced length (low byte), the
/// fields, and, when asked for, the checksum of all that precedes it.
pub open spec fn rpc_response_spec(command: Command, datum: Seq<Seq<char>>, add_checksum: bool) -> Seq<u8> {
    let body = seq![command_code(command), (fields_length(datum) % 256) as u8] + fields_bytes(datum);
    if add_checksum {
        body.push(checksum(body))
    } else {
        body
    }
}

proof fn lemma_fields_length_prefix(datum: Seq<Seq<char>>, i: int)
    requires
        0 <= i <= datum.len(),
    ensures
        fields_length(datum.take(i)) <= fields_length(datum),
    decreases datum.len() - i,
{
    if i < datum.len() {
        lemma_fields_length_prefix(datum, i + 1);
        assert(datum.take(i + 1).drop_last() == datum.take(i));
    } else {
        assert(datum.take(i) == datum);
    }
}

/// Builds a response payload for `command` from string fields.
pub fn build_rpc_response(command: Command, datum: Vec<&str>, add_checksum: bool) -> (out: Vec<u8>)
    requires
        fields_length(str_views(datum@)) <= usize::MAX,
    ensures
        out@ == rpc_response_spec(command, str_views(datum@), add_checksum),
{
    let ghost views = str_views(datum@);
    let mut out: Vec<u8> = Vec::new();
    let mut length: usize = 0;
    out.push(command.code());
    for k in 0..datum.len()
        invariant
            views == str_views(datum@),
            fields_length(views) <= usize::MAX,
            length == fields_length(views.take(k as int)),
            out@ == seq![command_code(command)] + fields_bytes(views.take(k as int)),
    {
        let s: &str = datum[k];
        let len = s.len();
        proof {
            assert(views.take(k + 1).drop_last() == views.take(k as int));
            assert(views.take(k + 1).last() == s@);
            lemma_fields_length_prefix(views, k + 1);
        }
        length += len + 1;
        out.push((len % 256) as u8);
        let ghost before = out@;
        for c in it: s.chars()
            invariant
                out@ == before + low_bytes(it.seq().take(it.index())),
        {
            out.push(((c as u32) % 256) as u8);
            proof {
                let t = it.seq().take(it.index() + 1);
                assert(t.drop_last() == it.seq().take(it.index()));
                assert(low_bytes(t) == low_bytes(t.drop_last()).push(low_byte(c)));
            }
        }
        proof {
            assert(before == seq![command_code(command)] + fields_bytes(views.take(k as int)).push(
                (encode_utf8(s@).len() % 256) as u8,
            ));
        }
    }
    assert(views.take(datum@.len() as int) == views);
    let ghost before_insert = out@;
    out.insert(1, (length % 256) as u8);
    assert(out@ =~= seq![command_code(command), (fields_length(views) % 256) as u8] + fields_bytes(
        views,
    )) by {
        assert(before_insert == seq![command_code(command)] + fields_bytes(views));
        assert(out@ == before_insert.insert(1, (length % 256) as u8));
    }
    if add_checksum {
        let calculated_checksum = checksum_of(out.as_slice());
        out.push(calculated_checksum);
    }
    out
}


// ---------------------------------------------------------------------------
// Serial framing of outgoing packets
// ---------------------------------------------------------------------------

/// The byte at offset `i` of the `IMPROV` header.
pub open spec fn magic_byte(i: int) -> u8 {
    if i == 0 {
        73
    } else if i == 1 {
        77
    } else if i == 2 {
        80
    } else if i == 3 {
        82
    } else if i == 4 {
        79
    } else {
        86
    }
}

/// A serial packet: `IMPROV`, the version, the packet type, the payload
/// length (low byte), the payload, and the checksum of all that precedes it.
pub open spec fn frame_spec(serial_type: u8, payload: Seq<u8>) -> Seq<u8> {
    let head = seq![73u8, 77u8, 80u8, 82u8, 79u8, 86u8, VERSION, serial_type, (payload.len() % 256) as u8]
        + payload;
    head.push(checksum(head))
}

/// Frames `payload` as a serial packet of the given type.
pub fn frame_packet(serial_type: ImprovSerialType, payload: Vec<u8>) -> (packet: Vec<u8>)
    ensures
        packet@ == frame_spec(serial_type_code(serial_type), payload@),
{
    let mut packet: Vec<u8> = Vec::new();
    let mut improv: Vec<u8> = vec![73, 77, 80, 82, 79, 86];
    packet.append(&mut improv);
    packet.push(VERSION);
    packet.push(serial_type.code());
    packet.push((payload.len() % 256) as u8);
    let ghost payload_view = payload@;
    let mut payload = payload;
    packet.append(&mut payload);
    assert(packet@ =~= seq![73u8, 77u8, 80u8, 82u8, 79u8, 86u8, VERSION, serial_type_code(serial_type), (
    payload_view.len() % 256) as u8] + payload_view);
    let sum = checksum_of(packet.as_slice());
    packet.push(sum);
    packet
}

/// The packet that carries an RPC response.
pub fn frame_response(response: Vec<u8>) -> (packet: Vec<u8>)
    ensures
        packet@ == frame_spec(serial_type_code(ImprovSerialType::TypeRpcResponse), response@),
{
    frame_packet(ImprovSerialType::TypeRpcResponse, response)
}

/// The packet that reports the current provisioning state.
pub fn frame_state(state: State) -> (packet: Vec<u8>)
    ensures
        packet@ == frame_spec(serial_type_code(ImprovSerialType::TypeCurrentState), seq![state_code(state)]),
{
    let payload: Vec<u8> = vec![state.code()];
    frame_packet(ImprovSerialType::TypeCurrentState, payload)
}

/// The packet that reports an error.
pub fn frame_error(err: ImprovError) -> (packet: Vec<u8>)
    ensures
        packet@ == frame_spec(serial_type_code(ImprovSerialType::TypeErrorState), seq![error_code(err)]),
{
    let payload: Vec<u8> = vec![err.code()];
    frame_packet(ImprovSerialType::TypeErrorState, payload)
}

// ---------------------------------------------------------------------------
// Recognising incoming packets byte by byte
// ---------------------------------------------------------------------------

/// What one incoming byte does to the packet being received.
pub enum SerialEvent {
    /// The byte belongs to the packet: keep it.
    Accepted,
    /// The byte does not fit: start over.
    Rejected,
    /// The byte is a checksum that does not match: report an invalid RPC.
    ChecksumError,
    /// The byte completes an RPC packet, which carries this command.
    Command(ImprovCommand),
}

/// The mathematical value of a [`SerialEvent`].
pub enum SerialEventView {
    Accepted,
    Rejected,
    ChecksumError,
    Command(ImprovCommandView),
}

impl View for SerialEvent {
    type V = SerialEventView;

    open spec fn view(&self) -> SerialEventView {
        match self {
            SerialEvent::Accepted => SerialEventView::Accepted,
            SerialEvent::Rejected => SerialEventView::Rejected,
            SerialEvent::ChecksumError => SerialEventView::ChecksumError,
            SerialEvent::Command(c) => SerialEventView::Command(c@),
        }
    }
}

/// The inputs on which [`parse_improve_serial_byte`] completes: once past the
/// header the buffer holds it, the announced length leaves room for the
/// offsets computed in a byte, the checksum reads only received bytes, and an
/// RPC payload it decodes is one [`parse_improv_data`] accepts.
pub open spec fn serial_byte_accepts(position: int, byte: u8, buffer: Seq<u8>) -> bool {
    position <= 8 || {
        &&& buffer.len() >= 9
        &&& buffer[8] <= 247
        &&& (position > 8 + buffer[8] ==> buffer[8] <= 246)
        &&& (position == 9 + buffer[8] ==> {
            &&& position <= buffer.len()
            &&& (checksum(buffer.take(position)) == byte && buffer[7] == 3) ==> parse_improv_data_accepts(
                buffer.skip(9),
                buffer[8] as int,
                false,
            )
        })
    }
}

/// What byte `byte`, arriving at offset `position` of a packet whose earlier
/// bytes are in `buffer`, does: the header must read `IMPROV` and the
/// version; the type and length are taken as they come; payload bytes are
/// taken; the byte after the payload must be the checksum of all before it,
/// and completes an RPC packet; anything later is refused.
pub open spec fn serial_step_spec(position: int, byte: u8, buffer: Seq<u8>) -> SerialEventView {
    if position < 6 {
        if byte == magic_byte(position) {
            SerialEventView::Accepted
        } else {
            SerialEventView::Rejected
        }
    } else if position == 6 {
        if byte == VERSION {
            SerialEventView::Accepted
        } else {
            SerialEventView::Rejected
        }
    } else if position <= 8 {
        SerialEventView::Accepted
    } else if position <= 8 + buffer[8] {
        SerialEventView::Accepted
    } else if position == 9 + buffer[8] {
        if checksum(buffer.take(position)) != byte {
            SerialEventView::ChecksumError
        } else if buffer[7] == serial_type_code(ImprovSerialType::TypeRpc) {
            SerialEventView::Command(parse_improv_data_spec(buffer.skip(9), buffer[8] as int, false))
        } else {
            SerialEventView::Rejected
        }
    } else {
        SerialEventView::Rejected
    }
}

/// Decides what the byte `byte` at offset `position` does to the packet
/// whose earlier bytes are in `buffer`.
pub fn parse_improve_serial_byte(position: usize, byte: u8, buffer: &[u8]) -> (ev: SerialEvent)
    requires
        serial_byte_accepts(position as int, byte, buffer@),
    ensures
        ev@ == serial_step_spec(position as int, byte, buffer@),
{
    let c = byte as char;
    let matches = match position {
        0 => Some(c == 'I'),
        1 => Some(c == 'M'),
        2 => Some(c == 'P'),
        3 => Some(c == 'R'),
        4 => Some(c == 'O'),
        5 => Some(c == 'V'),
        6 => Some(byte == VERSION),
        7 | 8 => Some(true),
        _ => None,
    };
    if let Some(ok) = matches {
        return if ok {
            SerialEvent::Accepted
        } else {
            SerialEvent::Rejected
        };
    }
    let serial_type = buffer[7];
    let data_len = buffer[8];
    if position <= (8 + data_len) as usize {
        return SerialEvent::Accepted;
    }
    if position == (8 + data_len + 1) as usize {
        let checksum = checksum_prefix(buffer, position);
        if checksum != byte {
            return SerialEvent::ChecksumError;
        }
        if ImprovSerialType::TypeRpc.code() == serial_type {
            let data = copy_range(buffer, 9, buffer.len());
            assert(data@ == buffer@.skip(9));
            let command = parse_improv_data(data, data_len as usize, false);
            return SerialEvent::Command(command);
        }
    }
    SerialEvent::Rejected
}

/// Whether [`parse_improve_serial_byte`] completes on these inputs.
pub fn serial_byte_is_readable(position: usize, byte: u8, buffer: &[u8]) -> (ok: bool)
    ensures
        ok == serial_byte_accepts(position as int, byte, buffer@),
{
    if position <= 8 {
        return true;
    }
    if buffer.len() < 9 {
        return false;
    }
    let data_len = buffer[8] as usize;
    if data_len > 247 {
        return false;
    }
    if position > 8 + data_len && data_len > 246 {
        return false;
    }
    if position == 9 + data_len {
        if position > buffer.len() {
            return false;
        }
        if checksum_prefix(buffer, position) == byte && buffer[7] == 3 {
            let data = copy_range(buffer, 9, buffer.len());
            assert(data@ == buffer@.skip(9));
            return checked_parse_improv_data(data, data_len, false).is_some();
        }
    }
    true
}

/// The size of the receive buffer.
pub const RECEIVE_BUFFER_LEN: usize = 200;

/// The packet being received: the bytes taken so far and how many there are.
pub struct ImprovReceiver {
    buffer: Vec<u8>,
    position: usize,
}

/// The mathematical value of an [`ImprovReceiver`].
pub struct ReceiverView {
    pub buffer: Seq<u8>,
    pub position: nat,
}

impl View for ImprovReceiver {
    type V = ReceiverView;

    closed spec fn view(&self) -> ReceiverView {
        ReceiverView { buffer: self.buffer@, position: self.position as nat }
    }
}

impl ImprovReceiver {
    /// The receiver's invariant: a full-size buffer and a position within it.
    pub open spec fn wf(&self) -> bool {
        &&& self@.buffer.len() == RECEIVE_BUFFER_LEN
        &&& self@.position <= RECEIVE_BUFFER_LEN
    }

    /// A receiver waiting for the first byte of a packet, its buffer zeroed.
    pub fn new() -> (r: ImprovReceiver)
        ensures
            r.wf(),
            r@.position == 0,
            r@.buffer == Seq::new(RECEIVE_BUFFER_LEN as nat, |i: int| 0u8),
    {
        let mut buffer: Vec<u8> = Vec::new();
        while buffer.len() < RECEIVE_BUFFER_LEN
            invariant
                buffer@.len() <= RECEIVE_BUFFER_LEN,
                buffer@ == Seq::new(buffer@.len(), |i: int| 0u8),
            decreases RECEIVE_BUFFER_LEN - buffer@.len(),
        {
            buffer.push(0);
        }
        ImprovReceiver { buffer, position: 0 }
    }

    /// How many bytes of the current packet have been taken.
    pub fn position(&self) -> (p: usize)
        ensures
            p == self@.position,
    {
        self.position
    }
}

/// The inputs on which [`try_read_improv_data`] completes: the byte is
/// readable at the receiver's position, and a byte to keep has room.
pub open spec fn receiver_accepts(r: ReceiverView, byte: u8) -> bool {
    &&& serial_byte_accepts(r.position as int, byte, r.buffer)
    &&& (serial_step_spec(r.position as int, byte, r.buffer) is Accepted ==> r.position
        < RECEIVE_BUFFER_LEN)
}

/// Feeds one received byte to the receiver. A byte that belongs to the
/// packet is kept at the current position; a refused byte or a bad checksum
/// starts the packet over; a byte that completes an RPC leaves the receiver
/// as it was, for [`finish_command`] once the command has been handled.
pub fn try_read_improv_data(receiver: &mut ImprovReceiver, byte: u8) -> (ev: SerialEvent)
    requires
        old(receiver).wf(),
        receiver_accepts(old(receiver)@, byte),
    ensures
        final(receiver).wf(),
        ev@ == serial_step_spec(old(receiver)@.position as int, byte, old(receiver)@.buffer),
        ev@ is Accepted ==> final(receiver)@ == (ReceiverView {
            buffer: old(receiver)@.buffer.update(old(receiver)@.position as int, byte),
            position: old(receiver)@.position + 1,
        }),
        (ev@ is Rejected || ev@ is ChecksumError) ==> final(receiver)@ == (ReceiverView {
            buffer: old(receiver)@.buffer,
            position: 0,
        }),
        ev@ is Command ==> final(receiver)@ == old(receiver)@,
{
    let ev = parse_improve_serial_byte(receiver.position, byte, receiver.buffer.as_slice());
    match ev {
        SerialEvent::Accepted => {
            let p = receiver.position;
            receiver.buffer.set(p, byte);
            receiver.position = p + 1;
        },
        SerialEvent::Rejected | SerialEvent::ChecksumError => {
            receiver.position = 0;
        },
        SerialEvent::Command(_) => {},
    }
    ev
}

/// After the command that `byte` completed has been handled: the byte is
/// kept when the handler took the command, else the packet starts over.
pub fn finish_command(receiver: &mut ImprovReceiver, byte: u8, handled: bool)
    requires
        old(receiver).wf(),
        handled ==> old(receiver)@.position < RECEIVE_BUFFER_LEN,
    ensures
        final(receiver).wf(),
        handled ==> final(receiver)@ == (ReceiverView {
            buffer: old(receiver)@.buffer.update(old(receiver)@.position as int, byte),
            position: old(receiver)@.position + 1,
        }),
        !handled ==> final(receiver)@ == (ReceiverView { buffer: old(receiver)@.buffer, position: 0 }),
{
    if handled {
        let p = receiver.position;
        receiver.buffer.set(p, byte);
        receiver.position = p + 1;
    } else {
        receiver.position = 0;
    }
}

/// Whether [`try_read_improv_data`] completes on this receiver and byte.
pub fn receiver_can_take(receiver: &ImprovReceiver, byte: u8) -> (ok: bool)
    requires
        receiver.wf(),
    ensures
        ok == receiver_accepts(receiver@, byte),
{
    if !serial_byte_is_readable(receiver.position, byte, receiver.buffer.as_slice()) {
        return false;
    }
    let ev = parse_improve_serial_byte(receiver.position, byte, receiver.buffer.as_slice());
    match ev {
        SerialEvent::Accepted => receiver.position < RECEIVE_BUFFER_LEN,
        _ => true,
    }
}

} // verus!
