//! Wooting HID configuration protocol: command reports, response envelopes,
//! the legacy profile query and the protobuf heartbeat.
use vstd::prelude::*;
use vstd::utf8::{decode_utf8, encode_utf8, valid_utf8};

use crate::text::str_from_utf8;

verus! {

/// Command 11: `GetCurrentKeyboardProfileIndex` (legacy state query).
pub const GET_CURRENT_KEYBOARD_PROFILE_INDEX: u8 = 11;
/// Command 7: `ReloadProfile0` (legacy reload fallback).
pub const RELOAD_PROFILE_LEGACY: u8 = 7;
/// Command 23: `ActivateProfile`.
pub const ACTIVATE_PROFILE: u8 = 23;
/// Command 29: `RefreshRgbColors` (legacy lighting fallback).
pub const REFRESH_RGB_COLORS: u8 = 29;
/// Command 32: `WootDevResetAll`, releases third-party RGB ownership.
pub const WOOT_DEV_RESET_ALL: u8 = 32;
/// Command 33: `WootDevInit`, opens a switch session.
pub const WOOT_DEV_INIT: u8 = 33;
/// Command 38: `ReloadProfile` (modern full profile reload).
pub const RELOAD_PROFILE: u8 = 38;
/// Command 55: `GetProfileMetadata`.
pub const GET_PROFILE_METADATA: u8 = 55;
/// Command 73: idle/state heartbeat.
pub const HEARTBEAT: u8 = 73;
/// Number of onboard profile slots.
pub const PROFILE_COUNT: u8 = 4;
/// Largest HID response the transport allocates.
pub const MAX_HID_RESPONSE_SIZE: usize = 2047;

/// Why a keyboard response was not accepted.
#[derive(Clone, Copy, Debug, PartialEq, Eq, Structural)]
pub enum ResponseError {
    /// The transport reported a negative length (a read failure).
    ReadFailed,
    /// The transport reported a zero length (a timeout).
    TimedOut,
    /// The transport reported more bytes than the buffer holds.
    ExceededBuffer,
    /// The response echoed another command than the one that was sent.
    WrongCommand { expected: u8, actual: u8 },
    /// The response was too short to hold the command envelope.
    MissingEnvelope { expected: u8 },
    /// The response did not hold the byte at the given offset.
    MissingByte { offset: usize },
    /// The keyboard named a profile slot outside the onboard range.
    UnsupportedProfile { profile: u8 },
}

/// The eight-byte feature report that carries a command.
pub open spec fn command_report_bytes(multi_report: bool, command: u8, profile: u8) -> Seq<u8> {
    seq![
        if multi_report { 1u8 } else { 0u8 },
        if multi_report { 0xD1u8 } else { 0xD0u8 },
        0xDAu8,
        command,
        profile,
        0u8,
        0u8,
        0u8,
    ]
}

/// Builds the feature report for `command` with `profile` as its argument.
pub fn command_report(multi_report: bool, command: u8, profile: u8) -> (report: [u8; 8])
    ensures
        report@ == command_report_bytes(multi_report, command, profile),
{
    let first: u8 = if multi_report { 1 } else { 0 };
    let second: u8 = if multi_report { 0xD1 } else { 0xD0 };
    let report: [u8; 8] = [first, second, 0xDA, command, profile, 0, 0, 0];
    assert(report@ =~= command_report_bytes(multi_report, command, profile));
    report
}

/// Checks the length that a HID read reported against the buffer it filled.
pub fn validated_response_length(response: i32, buffer_size: usize) -> (r: Result<usize, ResponseError>)
    ensures
        response < 0 ==> r == Err::<usize, ResponseError>(ResponseError::ReadFailed),
        response == 0 ==> r == Err::<usize, ResponseError>(ResponseError::TimedOut),
        response > 0 && response > buffer_size ==> r == Err::<usize, ResponseError>(
            ResponseError::ExceededBuffer,
        ),
        0 < response <= buffer_size ==> r == Ok::<usize, ResponseError>(response as usize),
{
    if response < 0 {
        return Err(ResponseError::ReadFailed);
    }
    let length: usize = response as usize;
    if length == 0 {
        return Err(ResponseError::TimedOut);
    }
    if length > buffer_size {
        return Err(ResponseError::ExceededBuffer);
    }
    Ok(length)
}

/// Offset of the echoed command byte in a response.
pub open spec fn command_offset(multi_report: bool) -> int {
    if multi_report { 3 } else { 2 }
}

/// What `validate_response_command` answers for a response.
pub open spec fn response_command_check(buffer: Seq<u8>, expected: u8, multi_report: bool) -> Result<(), ResponseError> {
    let offset = command_offset(multi_report);
    if offset < buffer.len() {
        if buffer[offset] == expected {
            Ok(())
        } else {
            Err(ResponseError::WrongCommand { expected, actual: buffer[offset] })
        }
    } else {
        Err(ResponseError::MissingEnvelope { expected })
    }
}

/// Checks that a response echoes the command it answers.
pub fn validate_response_command(buffer: &[u8], expected: u8, multi_report: bool) -> (r: Result<(), ResponseError>)
    ensures
        r == response_command_check(buffer@, expected, multi_report),
{
    let offset: usize = if multi_report { 3 } else { 2 };
    if offset < buffer.len() {
        let actual = buffer[offset];
        if actual == expected {
            Ok(())
        } else {
            Err(ResponseError::WrongCommand { expected, actual })
        }
    } else {
        Err(ResponseError::MissingEnvelope { expected })
    }
}

/// Reads the profile slot at `data_offset` of a legacy profile response.
pub fn parse_legacy_profile(buffer: &[u8], data_offset: usize) -> (r: Result<u8, ResponseError>)
    ensures
        data_offset >= buffer@.len() ==> r == Err::<u8, ResponseError>(
            ResponseError::MissingByte { offset: data_offset },
        ),
        data_offset < buffer@.len() && buffer@[data_offset as int] >= PROFILE_COUNT ==> r == Err::<
            u8,
            ResponseError,
        >(ResponseError::UnsupportedProfile { profile: buffer@[data_offset as int] }),
        data_offset < buffer@.len() && buffer@[data_offset as int] < PROFILE_COUNT ==> r == Ok::<
            u8,
            ResponseError,
        >(buffer@[data_offset as int]),
{
    if data_offset >= buffer.len() {
        return Err(ResponseError::MissingByte { offset: data_offset });
    }
    let profile = buffer[data_offset];
    if profile >= PROFILE_COUNT {
        return Err(ResponseError::UnsupportedProfile { profile });
    }
    Ok(profile)
}


/// Who currently owns the keyboard's live RGB ("WootDev") state.
#[derive(Clone, Copy, Debug, PartialEq, Eq, Structural)]
pub enum WootDevOwnership {
    Active,
    Inactive,
    Unknown,
}

/// The runtime state the keyboard reports.
#[derive(Clone, Copy, Debug, PartialEq, Eq, Structural)]
pub struct KeyboardState {
    /// Zero-based onboard profile slot.
    pub profile: u8,
    pub wootdev: WootDevOwnership,
}

/// Offset of the first payload byte of a legacy or metadata response.
pub open spec fn data_offset_spec(multi_report: bool, v2_interface: bool) -> int {
    (if multi_report { 1int } else { 0int }) + (if v2_interface { 5int } else { 4int }) + (
    if multi_report { 1int } else { 0int })
}

/// Offset of the first payload byte of a legacy or metadata response.
pub fn data_offset(multi_report: bool, v2_interface: bool) -> (offset: usize)
    ensures
        offset == data_offset_spec(multi_report, v2_interface),
{
    let report_offset: usize = if multi_report { 1 } else { 0 };
    let extra_data_offset: usize = if multi_report { 1 } else { 0 };
    let header: usize = if v2_interface { 5 } else { 4 };
    report_offset + header + extra_data_offset
}

/// What `parse_legacy_state` answers for a command-11 response.
pub open spec fn legacy_state_spec(buffer: Seq<u8>, multi_report: bool, v2_interface: bool) -> Result<KeyboardState, ResponseError> {
    match response_command_check(buffer, GET_CURRENT_KEYBOARD_PROFILE_INDEX, multi_report) {
        Err(e) => Err(e),
        Ok(_) => {
            let offset = data_offset_spec(multi_report, v2_interface);
            if offset >= buffer.len() {
                Err(ResponseError::MissingByte { offset: offset as usize })
            } else if buffer[offset] >= PROFILE_COUNT {
                Err(ResponseError::UnsupportedProfile { profile: buffer[offset] })
            } else {
                Ok(KeyboardState { profile: buffer[offset], wootdev: WootDevOwnership::Unknown })
            }
        },
    }
}

/// Decodes the answer to `GetCurrentKeyboardProfileIndex`. Legacy state
/// does not reveal WootDev ownership, so it is reported as unknown.
pub fn parse_legacy_state(buffer: &[u8], multi_report: bool, v2_interface: bool) -> (r: Result<KeyboardState, ResponseError>)
    ensures
        r == legacy_state_spec(buffer@, multi_report, v2_interface),
{
    validate_response_command(buffer, GET_CURRENT_KEYBOARD_PROFILE_INDEX, multi_report)?;
    let offset = data_offset(multi_report, v2_interface);
    let profile = parse_legacy_profile(buffer, offset)?;
    Ok(KeyboardState { profile, wootdev: WootDevOwnership::Unknown })
}

/// Why a heartbeat response was not accepted.
#[derive(Clone, Copy, Debug, PartialEq, Eq, Structural)]
pub enum HeartbeatError {
    Envelope(ResponseError),
    /// A field used another wire type than varint.
    UnsupportedField,
    /// A varint ran past the end of the response.
    Truncated,
    /// A varint was longer than 64 bits.
    InvalidVarint,
    /// Field 1 did not fit in a byte.
    ProfileOverflow,
    /// Field 1 was absent.
    MissingProfile,
    /// Field 1 named a slot outside the onboard range.
    UnsupportedProfile { profile: u8 },
}

/// The varint that starts at `pos`, accumulated from `acc` at bit `shift`:
/// its value and the position after it.
pub open spec fn varint_at(buf: Seq<u8>, pos: int, shift: int, acc: u64) -> Result<(u64, int), HeartbeatError>
    decreases 64 - shift,
{
    if pos < 0 || pos >= buf.len() || shift < 0 || shift >= 64 {
        Err(HeartbeatError::Truncated)
    } else {
        let b = buf[pos];
        let v = acc | (((b & 0x7f) as u64) << (shift as u64));
        if b & 0x80 == 0 {
            Ok((v, pos + 1))
        } else if shift + 7 >= 64 {
            Err(HeartbeatError::InvalidVarint)
        } else {
            varint_at(buf, pos + 1, shift + 7, v)
        }
    }
}

/// A varint that decodes ends after the position it started at.
pub proof fn lemma_varint_advances(buf: Seq<u8>, pos: int, shift: int, acc: u64)
    ensures
        varint_at(buf, pos, shift, acc) matches Ok((_, next)) ==> pos < next <= buf.len(),
    decreases 64 - shift,
{
    if 0 <= pos < buf.len() && 0 <= shift < 64 {
        let b = buf[pos];
        let v = acc | (((b & 0x7f) as u64) << (shift as u64));
        if b & 0x80 != 0 && shift + 7 < 64 {
            lemma_varint_advances(buf, pos + 1, shift + 7, v);
        }
    }
}

/// The profile and ownership fields found from `cursor` on, starting from
/// the values already found.
pub open spec fn heartbeat_fields(
    buf: Seq<u8>,
    cursor: int,
    profile: Option<u8>,
    wootdev: Option<WootDevOwnership>,
) -> Result<(Option<u8>, Option<WootDevOwnership>), HeartbeatError>
    decreases buf.len() - cursor,
{
    if cursor < 0 || cursor >= buf.len() || buf[cursor] == 0 {
        Ok((profile, wootdev))
    } else if buf[cursor] & 0x07 != 0 {
        Err(HeartbeatError::UnsupportedField)
    } else {
        let tag = buf[cursor];
        match varint_at(buf, cursor + 1, 0, 0) {
            Err(e) => Err(e),
            Ok((value, next)) => {
                proof {
                    lemma_varint_advances(buf, cursor + 1, 0, 0);
                }
                if tag >> 3 == 1 {
                    if value > 255 {
                        Err(HeartbeatError::ProfileOverflow)
                    } else {
                        heartbeat_fields(buf, next, Some(value as u8), wootdev)
                    }
                } else if tag >> 3 == 2 {
                    heartbeat_fields(
                        buf,
                        next,
                        profile,
                        Some(
                            if value != 0 {
                                WootDevOwnership::Active
                            } else {
                                WootDevOwnership::Inactive
                            },
                        ),
                    )
                } else {
                    heartbeat_fields(buf, next, profile, wootdev)
                }
            },
        }
    }
}

/// What `parse_heartbeat` answers for a command-73 response.
pub open spec fn heartbeat_spec(buffer: Seq<u8>, multi_report: bool) -> Result<KeyboardState, HeartbeatError> {
    match response_command_check(buffer, HEARTBEAT, multi_report) {
        Err(e) => Err(HeartbeatError::Envelope(e)),
        Ok(_) => match heartbeat_fields(buffer, command_offset(multi_report) + 2, None, None) {
            Err(e) => Err(e),
            Ok((None, _)) => Err(HeartbeatError::MissingProfile),
            Ok((Some(p), w)) => if p >= PROFILE_COUNT {
                Err(HeartbeatError::UnsupportedProfile { profile: p })
            } else {
                Ok(
                    KeyboardState {
                        profile: p,
                        wootdev: match w {
                            Some(o) => o,
                            None => WootDevOwnership::Unknown,
                        },
                    },
                )
            },
        },
    }
}

/// Decodes the protobuf body of a heartbeat response: field 1 is the
/// runtime-active profile, field 2 whether WootDev ownership is active.
pub fn parse_heartbeat(buffer: &[u8], multi_report: bool) -> (r: Result<KeyboardState, HeartbeatError>)
    ensures
        r == heartbeat_spec(buffer@, multi_report),
{
    match validate_response_command(buffer, HEARTBEAT, multi_report) {
        Err(e) => {
            return Err(HeartbeatError::Envelope(e));
        },
        Ok(()) => {},
    }
    let len = buffer.len();
    let mut cursor: usize = if multi_report { 5 } else { 4 };
    let mut profile: Option<u8> = None;
    let mut wootdev: Option<WootDevOwnership> = None;
    let ghost start = cursor as int;
    while cursor < len && buffer[cursor] != 0
        invariant
            len == buffer@.len(),
            response_command_check(buffer@, HEARTBEAT, multi_report) is Ok,
            start == command_offset(multi_report) + 2,
            heartbeat_fields(buffer@, cursor as int, profile, wootdev) == heartbeat_fields(
                buffer@,
                start,
                None,
                None,
            ),
        decreases len - cursor,
    {
        let tag = buffer[cursor];
        let ghost tag_pos = cursor as int;
        cursor += 1;
        if tag & 0x07 != 0 {
            return Err(HeartbeatError::UnsupportedField);
        }
        let ghost value_start = cursor as int;
        let mut value: u64 = 0;
        let mut shift: u32 = 0;
        loop
            invariant_except_break
                shift < 64,
                varint_at(buffer@, cursor as int, shift as int, value) == varint_at(
                    buffer@,
                    value_start,
                    0,
                    0,
                ),
            invariant
                len == buffer@.len(),
                value_start <= cursor <= len,
                heartbeat_fields(buffer@, tag_pos, profile, wootdev) == heartbeat_fields(
                    buffer@,
                    start,
                    None,
                    None,
                ),
                response_command_check(buffer@, HEARTBEAT, multi_report) is Ok,
                start == command_offset(multi_report) + 2,
                0 <= tag_pos < len,
                tag == buffer@[tag_pos],
                tag_pos + 1 == value_start,
                tag & 0x07 == 0,
                tag != 0,
            ensures
                varint_at(buffer@, value_start, 0, 0) == Ok::<(u64, int), HeartbeatError>(
                    (value, cursor as int),
                ),
            decreases len - cursor,
        {
            if cursor >= len {
                return Err(HeartbeatError::Truncated);
            }
            let byte = buffer[cursor];
            cursor += 1;
            value = value | (((byte & 0x7f) as u64) << shift);
            if byte & 0x80 == 0 {
                break;
            }
            shift += 7;
            if shift >= 64 {
                return Err(HeartbeatError::InvalidVarint);
            }
        }
        let field = tag >> 3;
        if field == 1 {
            if value > 255 {
                return Err(HeartbeatError::ProfileOverflow);
            }
            profile = Some(value as u8);
        } else if field == 2 {
            wootdev = Some(
                if value != 0 {
                    WootDevOwnership::Active
                } else {
                    WootDevOwnership::Inactive
                },
            );
        }
    }
    match profile {
        None => Err(HeartbeatError::MissingProfile),
        Some(p) => {
            if p >= PROFILE_COUNT {
                Err(HeartbeatError::UnsupportedProfile { profile: p })
            } else {
                let owner = match wootdev {
                    Some(o) => o,
                    None => WootDevOwnership::Unknown,
                };
                Ok(KeyboardState { profile: p, wootdev: owner })
            }
        },
    }
}


/// Why a profile metadata response was not accepted.
#[derive(Clone, Copy, Debug, PartialEq, Eq, Structural)]
pub enum MetadataError {
    Envelope(ResponseError),
    /// The response ended before the payload offset.
    NoPayload,
    /// The payload length byte was missing.
    MissingLength,
    /// The response was shorter than the payload length it announced.
    Truncated,
    /// The payload did not start with protobuf field 1 (the name).
    NoName,
    /// The name length byte was missing.
    MissingNameLength,
    /// The payload was shorter than the name length it announced.
    NameTruncated,
    /// The name was not valid UTF-8.
    NotUtf8,
}

/// What `parse_profile_metadata` answers for a command-55 response: the
/// name in protobuf field 1 of the payload, or `None` for an empty slot.
pub open spec fn metadata_spec(buffer: Seq<u8>, multi_report: bool, v2_interface: bool) -> Result<Option<Seq<char>>, MetadataError> {
    let p = data_offset_spec(multi_report, v2_interface);
    let n = buffer.len();
    match response_command_check(buffer, GET_PROFILE_METADATA, multi_report) {
        Err(e) => Err(MetadataError::Envelope(e)),
        Ok(_) => if p > n {
            Err(MetadataError::NoPayload)
        } else if p == n {
            Err(MetadataError::MissingLength)
        } else if buffer[p] == 0 {
            Ok(None)
        } else if p + 2 + buffer[p] > n {
            Err(MetadataError::Truncated)
        } else if buffer[p + 2] != 0x0A {
            Err(MetadataError::NoName)
        } else if buffer[p] < 2 {
            Err(MetadataError::MissingNameLength)
        } else if 2 + buffer[p + 3] > buffer[p] {
            Err(MetadataError::NameTruncated)
        } else {
            let name = buffer.subrange(p + 4, p + 4 + buffer[p + 3]);
            if valid_utf8(name) {
                Ok(Some(decode_utf8(name)))
            } else {
                Err(MetadataError::NotUtf8)
            }
        },
    }
}

/// Decodes the answer to `GetProfileMetadata`: the slot's name, or `None`
/// when the slot is empty.
pub fn parse_profile_metadata(buffer: &[u8], multi_report: bool, v2_interface: bool) -> (r: Result<Option<String>, MetadataError>)
    ensures
        match r {
            Ok(Some(name)) => metadata_spec(buffer@, multi_report, v2_interface) == Ok::<
                Option<Seq<char>>,
                MetadataError,
            >(Some(name@)),
            Ok(None) => metadata_spec(buffer@, multi_report, v2_interface) == Ok::<
                Option<Seq<char>>,
                MetadataError,
            >(None),
            Err(e) => metadata_spec(buffer@, multi_report, v2_interface) == Err::<
                Option<Seq<char>>,
                MetadataError,
            >(e),
        },
{
    match validate_response_command(buffer, GET_PROFILE_METADATA, multi_report) {
        Err(e) => {
            return Err(MetadataError::Envelope(e));
        },
        Ok(()) => {},
    }
    let p = data_offset(multi_report, v2_interface);
    let n = buffer.len();
    if p > n {
        return Err(MetadataError::NoPayload);
    }
    if p == n {
        return Err(MetadataError::MissingLength);
    }
    let payload_length = buffer[p] as usize;
    if payload_length == 0 {
        return Ok(None);
    }
    if payload_length + 2 > n - p {
        return Err(MetadataError::Truncated);
    }
    if buffer[p + 2] != 0x0A {
        return Err(MetadataError::NoName);
    }
    if payload_length < 2 {
        return Err(MetadataError::MissingNameLength);
    }
    let name_length = buffer[p + 3] as usize;
    if name_length + 2 > payload_length {
        return Err(MetadataError::NameTruncated);
    }
    let name_bytes = &buffer[p + 4..p + 4 + name_length];
    match str_from_utf8(name_bytes) {
        None => Err(MetadataError::NotUtf8),
        Some(name) => Ok(Some(name.to_owned())),
    }
}

/// The name read from a metadata response is exactly protobuf field 1 of the
/// payload: the field starts with tag `0x0A` right after the two length
/// bytes, and the name's UTF-8 bytes are the `buffer[p + 3]` bytes that its
/// length byte announces, all inside the response.
pub proof fn lemma_metadata_name_is_field_one(buffer: Seq<u8>, multi_report: bool, v2_interface: bool)
    ensures
        metadata_spec(buffer, multi_report, v2_interface) matches Ok(Some(name)) ==> {
            let p = data_offset_spec(multi_report, v2_interface);
            &&& p + 4 + buffer[p + 3] <= buffer.len()
            &&& buffer[p + 2] == 0x0A
            &&& encode_utf8(name) == buffer.subrange(p + 4, p + 4 + buffer[p + 3])
        },
{
    if metadata_spec(buffer, multi_report, v2_interface) matches Ok(Some(name)) {
        let p = data_offset_spec(multi_report, v2_interface);
        vstd::utf8::decode_utf8_encode_utf8(buffer.subrange(p + 4, p + 4 + buffer[p + 3]));
    }
}

/// Bytes after the name do not change it: two responses of the same length
/// that agree on everything up to the end of the name (envelope, payload
/// length, field 1) give the same answer, whatever other protobuf fields or
/// padding follow the name.
pub proof fn lemma_metadata_name_ignores_following_bytes(
    a: Seq<u8>,
    b: Seq<u8>,
    multi_report: bool,
    v2_interface: bool,
)
    requires
        metadata_spec(a, multi_report, v2_interface) is Ok,
        metadata_spec(a, multi_report, v2_interface)->Ok_0 is Some,
        a.len() == b.len(),
        ({
            let p = data_offset_spec(multi_report, v2_interface);
            a.subrange(0, p + 4 + a[p + 3]) == b.subrange(0, p + 4 + a[p + 3])
        }),
    ensures
        metadata_spec(b, multi_report, v2_interface) == metadata_spec(a, multi_report, v2_interface),
{
    let p = data_offset_spec(multi_report, v2_interface);
    let end = p + 4 + a[p + 3];
    assert(a[2] == a.subrange(0, end)[2]);
    assert(b[2] == b.subrange(0, end)[2]);
    assert(a[3] == a.subrange(0, end)[3]);
    assert(b[3] == b.subrange(0, end)[3]);
    assert(a[p] == a.subrange(0, end)[p]);
    assert(b[p] == b.subrange(0, end)[p]);
    assert(a[p + 2] == a.subrange(0, end)[p + 2]);
    assert(b[p + 2] == b.subrange(0, end)[p + 2]);
    assert(a[p + 3] == a.subrange(0, end)[p + 3]);
    assert(b[p + 3] == b.subrange(0, end)[p + 3]);
    assert(a.subrange(p + 4, end) =~= b.subrange(p + 4, end)) by {
        assert forall|k: int| 0 <= k < end - (p + 4) implies #[trigger] a.subrange(p + 4, end)[k]
            == b.subrange(p + 4, end)[k] by {
            assert(a[p + 4 + k] == a.subrange(0, end)[p + 4 + k]);
            assert(b[p + 4 + k] == b.subrange(0, end)[p + 4 + k]);
        }
    }
}

/// A slot is reported empty exactly when the response echoes command 55
/// and its payload length byte is 0.
pub proof fn lemma_metadata_empty_slot(buffer: Seq<u8>, multi_report: bool, v2_interface: bool)
    ensures
        metadata_spec(buffer, multi_report, v2_interface) == Ok::<Option<Seq<char>>, MetadataError>(None)
            <==> ({
            let c: int = if multi_report { 3 } else { 2 };
            let p = data_offset_spec(multi_report, v2_interface);
            &&& c < buffer.len()
            &&& buffer[c] == GET_PROFILE_METADATA
            &&& p < buffer.len()
            &&& buffer[p] == 0
        }),
{
}

/// A one-byte varint holds its value.
proof fn lemma_small_varint(buf: Seq<u8>, pos: int)
    requires
        0 <= pos < buf.len(),
        buf[pos] < 128,
    ensures
        varint_at(buf, pos, 0, 0) == Ok::<(u64, int), HeartbeatError>((buf[pos] as u64, pos + 1)),
{
    let b = buf[pos];
    assert(b & 0x80 == 0 && (0u64 | (((b & 0x7f) as u64) << 0u64)) == b as u64) by (bit_vector)
        requires
            b < 128,
    ;
}

/// Heartbeat field 1 is the runtime-active profile and field 2 the WootDev
/// ownership: a response that echoes command 73 and carries `08 v 10 w`
/// (profile `v`, ownership flag `w`) before its end or a zero byte reports
/// profile `v`, with WootDev active exactly when `w` is non-zero.
pub proof fn lemma_heartbeat_profile_and_ownership(buffer: Seq<u8>, multi_report: bool, v: u8, w: u8)
    requires
        ({
            let c: int = if multi_report { 3 } else { 2 };
            &&& buffer.len() >= c + 6
            &&& buffer[c] == HEARTBEAT
            &&& buffer[c + 2] == 0x08 && buffer[c + 3] == v
            &&& buffer[c + 4] == 0x10 && buffer[c + 5] == w
            &&& buffer.len() == c + 6 || buffer[c + 6] == 0
        }),
        v < PROFILE_COUNT,
        w < 128,
    ensures
        heartbeat_spec(buffer, multi_report) == Ok::<KeyboardState, HeartbeatError>(
            KeyboardState {
                profile: v,
                wootdev: if w == 0 {
                    WootDevOwnership::Inactive
                } else {
                    WootDevOwnership::Active
                },
            },
        ),
{
    let c: int = if multi_report { 3 } else { 2 };
    lemma_small_varint(buffer, c + 3);
    lemma_small_varint(buffer, c + 5);
    assert((0x08u8 & 0x07u8) == 0 && (0x08u8 >> 3u8) == 1 && (0x10u8 & 0x07u8) == 0
        && (0x10u8 >> 3u8) == 2) by (bit_vector);
    let own = if w as u64 != 0 { WootDevOwnership::Active } else { WootDevOwnership::Inactive };
    assert(heartbeat_fields(buffer, c + 6, Some(v), Some(own)) == Ok::<
        (Option<u8>, Option<WootDevOwnership>),
        HeartbeatError,
    >((Some(v), Some(own))));
    assert(heartbeat_fields(buffer, c + 4, Some(v), None) == heartbeat_fields(
        buffer,
        c + 6,
        Some(v),
        Some(own),
    ));
    assert(heartbeat_fields(buffer, c + 2, None, None) == heartbeat_fields(
        buffer,
        c + 4,
        Some(v),
        None,
    ));
}

/// Without field 2 the ownership is unknown: a response that carries only
/// `08 v` (profile `v`) before its end or a zero byte reports profile `v`
/// with unknown ownership, which never allows enforcement.
pub proof fn lemma_heartbeat_without_ownership_is_unknown(buffer: Seq<u8>, multi_report: bool, v: u8)
    requires
        ({
            let c: int = if multi_report { 3 } else { 2 };
            &&& buffer.len() >= c + 4
            &&& buffer[c] == HEARTBEAT
            &&& buffer[c + 2] == 0x08 && buffer[c + 3] == v
            &&& buffer.len() == c + 4 || buffer[c + 4] == 0
        }),
        v < PROFILE_COUNT,
    ensures
        heartbeat_spec(buffer, multi_report) == Ok::<KeyboardState, HeartbeatError>(
            KeyboardState { profile: v, wootdev: WootDevOwnership::Unknown },
        ),
{
    let c: int = if multi_report { 3 } else { 2 };
    lemma_small_varint(buffer, c + 3);
    assert((0x08u8 & 0x07u8) == 0 && (0x08u8 >> 3u8) == 1) by (bit_vector);
    assert(heartbeat_fields(buffer, c + 4, Some(v), None) == Ok::<
        (Option<u8>, Option<WootDevOwnership>),
        HeartbeatError,
    >((Some(v), None)));
    assert(heartbeat_fields(buffer, c + 2, None, None) == heartbeat_fields(
        buffer,
        c + 4,
        Some(v),
        None,
    ));
}

/// Periodic enforcement runs only while WootDev ownership is known to be
/// inactive and both automatic switching and enforcement are enabled.
pub fn should_enforce(state: KeyboardState, enabled: bool, enforce: bool) -> (r: bool)
    ensures
        r == (state.wootdev == WootDevOwnership::Inactive && enabled && enforce),
{
    match state.wootdev {
        WootDevOwnership::Inactive => enabled && enforce,
        _ => false,
    }
}

/// Why the keyboard state could not be read.
#[derive(Clone, Debug, PartialEq, Eq)]
pub enum StateQueryError<E> {
    /// The legacy query failed and no heartbeat was attempted.
    Legacy(E),
    /// The heartbeat failed, and then the legacy query failed too.
    HeartbeatThenLegacy { heartbeat: E, legacy: E },
}

/// Reads the keyboard state: through the heartbeat where the device
/// supports it, falling back to the legacy query when the heartbeat fails;
/// through the legacy query otherwise.
pub fn read_current_state_with<E, F, G>(supports_heartbeat: bool, heartbeat: F, legacy: G) -> (r:
    Result<KeyboardState, StateQueryError<E>>) where
    F: FnOnce() -> Result<KeyboardState, E>,
    G: FnOnce() -> Result<KeyboardState, E>,

    requires
        supports_heartbeat ==> heartbeat.requires(()),
        legacy.requires(()),
    ensures
        supports_heartbeat ==> (exists|h: Result<KeyboardState, E>|
            #[trigger] heartbeat.ensures((), h) && match h {
                Ok(state) => r == Ok::<KeyboardState, StateQueryError<E>>(state),
                Err(he) => exists|l: Result<KeyboardState, E>|
                    #[trigger] legacy.ensures((), l) && match l {
                        Ok(state) => r == Ok::<KeyboardState, StateQueryError<E>>(state),
                        Err(le) => r == Err::<KeyboardState, StateQueryError<E>>(
                            StateQueryError::HeartbeatThenLegacy { heartbeat: he, legacy: le },
                        ),
                    },
            }),
        !supports_heartbeat ==> (exists|l: Result<KeyboardState, E>|
            #[trigger] legacy.ensures((), l) && match l {
                Ok(state) => r == Ok::<KeyboardState, StateQueryError<E>>(state),
                Err(le) => r == Err::<KeyboardState, StateQueryError<E>>(
                    StateQueryError::Legacy(le),
                ),
            }),
{
    if supports_heartbeat {
        match heartbeat() {
            Ok(state) => Ok(state),
            Err(heartbeat_error) => match legacy() {
                Ok(state) => Ok(state),
                Err(legacy_error) => Err(
                    StateQueryError::HeartbeatThenLegacy {
                        heartbeat: heartbeat_error,
                        legacy: legacy_error,
                    },
                ),
            },
        }
    } else {
        match legacy() {
            Ok(state) => Ok(state),
            Err(legacy_error) => Err(StateQueryError::Legacy(legacy_error)),
        }
    }
}

} // verus!
