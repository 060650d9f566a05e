//! What building and reading Improv messages promise of each other.
use vstd::prelude::*;
use vstd::utf8::*;
use crate::improv::{
    bare_command, byte_sum, checksum, command_code, command_from_code,
    field_bytes, fields_bytes, fields_length, low_bytes, frame_spec, magic_byte, parse_improv_data_accepts,
    parse_improv_data_spec, rpc_response_spec, serial_byte_accepts, serial_step_spec,
    serial_type_code, Command, ImprovCommandView, ImprovSerialType, SerialEventView, VERSION,
};

verus! {

broadcast use vstd::seq_lib::group_seq_properties;

/// The text is ASCII and the password ends within the 255 bytes that the
/// reader's byte-sized offsets can address.
pub open spec fn wifi_fields_fit(ssid: Seq<char>, password: Seq<char>) -> bool {
    &&& is_ascii_chars(ssid)
    &&& is_ascii_chars(password)
    &&& ssid.len() + password.len() <= 251
}

/// The fields also fit the payload length that the serial framing can carry.
pub open spec fn wifi_settings_fit(ssid: Seq<char>, password: Seq<char>) -> bool {
    &&& wifi_fields_fit(ssid, password)
    &&& ssid.len() + password.len() <= 242
}

proof fn lemma_ascii_low_bytes(s: Seq<char>)
    requires
        is_ascii_chars(s),
    ensures
        low_bytes(s) == encode_utf8(s),
        encode_utf8(s).len() == s.len(),
        valid_utf8(encode_utf8(s)),
        decode_utf8(encode_utf8(s)) == s,
{
    is_ascii_chars_encode_utf8(s);
    is_ascii_chars_nat_bound(s);
    encode_utf8_valid_utf8(s);
    encode_utf8_decode_utf8(s);
    assert forall|i: int| 0 <= i < s.len() implies #[trigger] low_bytes(s)[i] == encode_utf8(s)[i] by {
        assert((s[i] as nat) < 128);
        assert(encode_utf8(s)[i] == s[i] as u8);
    }
    assert(low_bytes(s) =~= encode_utf8(s));
}

/// The length of the payload that Wi-Fi settings make.
pub open spec fn wifi_payload_len(ssid: Seq<char>, password: Seq<char>) -> int {
    ssid.len() + password.len() + 4int
}

/// The payload that Wi-Fi settings make, spelled out.
pub open spec fn wifi_payload(ssid: Seq<char>, password: Seq<char>) -> Seq<u8> {
    seq![1u8, (ssid.len() + password.len() + 2) as u8, ssid.len() as u8] + encode_utf8(ssid) + seq![
        password.len() as u8,
    ] + encode_utf8(password)
}

proof fn lemma_wifi_payload(ssid: Seq<char>, password: Seq<char>)
    requires
        wifi_fields_fit(ssid, password),
    ensures
        rpc_response_spec(Command::WifiSettings, seq![ssid, password], false) == wifi_payload(
            ssid,
            password,
        ),
        wifi_payload(ssid, password).len() == wifi_payload_len(ssid, password),
{
    lemma_ascii_low_bytes(ssid);
    lemma_ascii_low_bytes(password);
    let d = seq![ssid, password];
    assert(d.drop_last() == seq![ssid]);
    assert(d.last() == password);
    assert(seq![ssid].drop_last() == Seq::<Seq<char>>::empty());
    assert(seq![ssid].last() == ssid);
    assert(fields_bytes(seq![ssid]) == field_bytes(ssid)) by {
        assert(fields_bytes(Seq::<Seq<char>>::empty()) == Seq::<u8>::empty());
    }
    assert(fields_length(seq![ssid]) == ssid.len() + 1) by {
        assert(fields_length(Seq::<Seq<char>>::empty()) == 0);
        assert(fields_length(seq![ssid]) == fields_length(seq![ssid].drop_last()) + encode_utf8(
            seq![ssid].last(),
        ).len() + 1);
    }
    assert(fields_bytes(d) == field_bytes(ssid) + field_bytes(password));
    assert(fields_length(d) == ssid.len() + password.len() + 2);
    assert(rpc_response_spec(Command::WifiSettings, d, false) =~= wifi_payload(ssid, password));
}

proof fn lemma_read_wifi_payload(data: Seq<u8>, ssid: Seq<char>, password: Seq<char>)
    requires
        wifi_fields_fit(ssid, password),
        data.len() >= wifi_payload_len(ssid, password),
        data.take(wifi_payload_len(ssid, password)) == wifi_payload(ssid, password),
    ensures
        parse_improv_data_accepts(data, wifi_payload_len(ssid, password), false),
        parse_improv_data_spec(data, wifi_payload_len(ssid, password), false) == (ImprovCommandView {
            command: Command::WifiSettings,
            ssid,
            password,
        }),
{
    lemma_ascii_low_bytes(ssid);
    lemma_ascii_low_bytes(password);
    let n = wifi_payload_len(ssid, password);
    let p = wifi_payload(ssid, password);
    assert(p.len() == n);
    let s_end = 3 + ssid.len() as int;
    assert(data[0] == p[0]);
    assert(data[1] == p[1]);
    assert(data[2] == p[2]);
    assert(data[s_end] == p[s_end]);
    assert(data.subrange(3, s_end) =~= encode_utf8(ssid)) by {
        assert forall|k: int| 0 <= k < ssid.len() implies #[trigger] data.subrange(3, s_end)[k]
            == encode_utf8(ssid)[k] by {
            assert(data[3 + k] == p[3 + k]);
        }
    }
    assert(data.subrange(s_end + 1, n) =~= encode_utf8(password)) by {
        assert forall|k: int| 0 <= k < password.len() implies #[trigger] data.subrange(
            s_end + 1,
            n,
        )[k] == encode_utf8(password)[k] by {
            assert(data[s_end + 1 + k] == p[s_end + 1 + k]);
        }
    }
}

/// Wi-Fi settings read back as they were written: reading the payload that
/// [`crate::improv::build_rpc_response`] makes of an SSID and a password,
/// unchecksummed, gives Wi-Fi settings with that SSID and password.
pub proof fn lemma_wifi_settings_round_trip(ssid: Seq<char>, password: Seq<char>)
    requires
        wifi_fields_fit(ssid, password),
    ensures
        ({
            let payload = rpc_response_spec(Command::WifiSettings, seq![ssid, password], false);
            &&& payload.len() == ssid.len() + password.len() + 4
            &&& parse_improv_data_accepts(payload, payload.len() as int, false)
            &&& parse_improv_data_spec(payload, payload.len() as int, false) == (ImprovCommandView {
                command: Command::WifiSettings,
                ssid,
                password,
            })
        }),
{
    lemma_wifi_payload(ssid, password);
    let p = wifi_payload(ssid, password);
    assert(p.take(p.len() as int) == p);
    lemma_read_wifi_payload(p, ssid, password);
}

proof fn lemma_double_mod(s: nat)
    ensures
        ((s + s % 256) % 256 == s % 256) <==> s % 256 == 0,
{
    let x = s % 256;
    assert(0 <= x < 256);
    assert(s == 256 * (s / 256) + x);
    vstd::arithmetic::div_mod::lemma_mod_multiples_vanish((s / 256) as int, (x + x) as int, 256);
    assert((s + x) % 256 == (x + x) % 256);
}

/// A checksummed payload reads back only when its byte sum is a multiple of
/// 256: the reader sums the checksum byte along with the payload, so Wi-Fi
/// settings written with a checksum read back as the settings exactly when
/// the checksum is zero, and as a bad checksum otherwise.
pub proof fn lemma_checksummed_wifi_settings(ssid: Seq<char>, password: Seq<char>)
    requires
        wifi_fields_fit(ssid, password),
    ensures
        ({
            let body = rpc_response_spec(Command::WifiSettings, seq![ssid, password], false);
            let payload = rpc_response_spec(Command::WifiSettings, seq![ssid, password], true);
            &&& parse_improv_data_accepts(payload, payload.len() as int, true)
            &&& checksum(body) == 0 ==> parse_improv_data_spec(payload, payload.len() as int, true)
                == (ImprovCommandView { command: Command::WifiSettings, ssid, password })
            &&& checksum(body) != 0 ==> parse_improv_data_spec(payload, payload.len() as int, true)
                == bare_command(Command::BadChecksum)
        }),
{
    lemma_wifi_payload(ssid, password);
    let body = wifi_payload(ssid, password);
    let payload = body.push(checksum(body));
    assert(rpc_response_spec(Command::WifiSettings, seq![ssid, password], true) == payload);
    let n = body.len();
    assert(payload.drop_last() == body);
    assert(byte_sum(payload) == byte_sum(body) + checksum(body));
    lemma_double_mod(byte_sum(body));
    assert(payload.take(n as int) == body);
    lemma_read_wifi_payload(payload, ssid, password);
}

/// An ASCII field list has as many UTF-8 bytes as characters.
proof fn lemma_ascii_fields(datum: Seq<Seq<char>>)
    requires
        forall|i: int| 0 <= i < datum.len() ==> is_ascii_chars(#[trigger] datum[i]),
    ensures
        fields_bytes(datum).len() == fields_length(datum),
    decreases datum.len(),
{
    if datum.len() > 0 {
        let last = datum.last();
        assert(is_ascii_chars(datum[datum.len() - 1]));
        lemma_ascii_low_bytes(last);
        assert forall|i: int| 0 <= i < datum.drop_last().len() implies is_ascii_chars(
            #[trigger] datum.drop_last()[i],
        ) by {
            assert(datum.drop_last()[i] == datum[i]);
        }
        lemma_ascii_fields(datum.drop_last());
    }
}

/// Every command other than Wi-Fi settings reads back as itself, without
/// credentials, from the unchecksummed payload built for it from ASCII fields.
pub proof fn lemma_bare_command_round_trip(command: Command, datum: Seq<Seq<char>>)
    requires
        command != Command::WifiSettings,
        forall|i: int| 0 <= i < datum.len() ==> is_ascii_chars(#[trigger] datum[i]),
    ensures
        ({
            let payload = rpc_response_spec(command, datum, false);
            &&& parse_improv_data_accepts(payload, payload.len() as int, false)
            &&& parse_improv_data_spec(payload, payload.len() as int, false) == bare_command(command)
        }),
{
    lemma_ascii_fields(datum);
    let payload = rpc_response_spec(command, datum, false);
    assert(payload[0] == command_code(command));
    assert(command_from_code(command_code(command)) == Some(command));
    assert(payload.len() == fields_length(datum) + 2);
}

/// A checksummed response is the unchecksummed one followed by one byte,
/// the checksum (byte sum modulo 256, which is the wrapping sum that
/// [`crate::improv::checksum_of`] computes) of all of it.
pub proof fn lemma_checksum_appended(command: Command, datum: Seq<Seq<char>>)
    ensures
        ({
            let with = rpc_response_spec(command, datum, true);
            let without = rpc_response_spec(command, datum, false);
            &&& with.len() == without.len() + 1
            &&& with.take(without.len() as int) == without
            &&& with[without.len() as int] == checksum(without)
        }),
{
    let without = rpc_response_spec(command, datum, false);
    assert(without.push(checksum(without)).take(without.len() as int) == without);
}

/// The serial packet that carries Wi-Fi settings as an RPC.
pub open spec fn wifi_settings_packet(ssid: Seq<char>, password: Seq<char>) -> Seq<u8> {
    frame_spec(
        serial_type_code(ImprovSerialType::TypeRpc),
        rpc_response_spec(Command::WifiSettings, seq![ssid, password], false),
    )
}

/// A framed Wi-Fi settings RPC is recognised byte by byte: fed in order, with
/// the bytes before each one already taken, every byte but the last is
/// accepted, and the last completes the packet with the settings it carries.
pub proof fn lemma_wifi_settings_packet_received(
    ssid: Seq<char>,
    password: Seq<char>,
    buffer: Seq<u8>,
    i: int,
)
    requires
        wifi_settings_fit(ssid, password),
        0 <= i < wifi_settings_packet(ssid, password).len(),
        buffer.len() >= i,
        buffer.take(i) == wifi_settings_packet(ssid, password).take(i),
    ensures
        ({
            let packet = wifi_settings_packet(ssid, password);
            &&& serial_byte_accepts(i, packet[i], buffer)
            &&& i + 1 < packet.len() ==> serial_step_spec(i, packet[i], buffer)
                is Accepted
            &&& i + 1 == packet.len() ==> serial_step_spec(i, packet[i], buffer)
                == SerialEventView::Command(
                ImprovCommandView { command: Command::WifiSettings, ssid, password },
            )
        }),
{
    lemma_wifi_payload(ssid, password);
    let payload = wifi_payload(ssid, password);
    let n = payload.len();
    let head = seq![73u8, 77u8, 80u8, 82u8, 79u8, 86u8, VERSION, 3u8, (n % 256) as u8] + payload;
    let packet = head.push(checksum(head));
    assert(wifi_settings_packet(ssid, password) == packet);
    assert(packet.len() == n + 10);
    if i < 6 {
        assert(packet[i] == magic_byte(i));
    } else if i >= 9 {
        assert(buffer[8] == buffer.take(i)[8]);
        assert(buffer[7] == buffer.take(i)[7]);
        assert(packet[8] == packet.take(i)[8]);
        assert(packet[7] == packet.take(i)[7]);
        assert(packet[8] == n);
        if i == 9 + n {
            assert(buffer.take(i) == head);
            assert(packet[i] == checksum(head));
            let data = buffer.skip(9);
            assert(data.take(n as int) =~= payload) by {
                assert forall|k: int| 0 <= k < n implies #[trigger] data.take(n as int)[k] == payload[k] by {
                    assert(buffer[9 + k] == buffer.take(i)[9 + k]);
                    assert(head[9 + k] == payload[k]);
                }
            }
            lemma_read_wifi_payload(data, ssid, password);
        }
    }
}

} // verus!
