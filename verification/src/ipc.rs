//! The authenticated loopback control protocol between the command-line
//! front end and the background watcher, and the token that guards it.
use vstd::prelude::*;
use vstd::string::StringSliceAdditionalSpecFns;
use vstd::utf8::{encode_utf8, valid_utf8};

use crate::config::valid_human_profile;
use crate::text::{
    decimal_text, hex_digit, hex_text, is_white_space, push_char, push_decimal, push_hex, str_from_utf8,
    trim_end_ws, trim_start_ws, trim_whitespace, trim_ws,
};
use vstd::string::StrSliceExecFns;
use vstd::string::StringExecFns;

verus! {

/// Largest accepted request, in bytes.
pub const IPC_REQUEST_LIMIT: usize = 128;
/// First loopback port the watcher may listen on.
pub const IPC_PORT_BASE: u16 = 49152;
/// Number of loopback ports the watcher may listen on.
pub const IPC_PORT_COUNT: u16 = 16384;

/// A request to the watcher.
#[derive(Clone, Copy, Debug, PartialEq, Eq, Structural)]
pub enum IpcRequest {
    /// Apply this human-facing profile (P1-P4) now.
    SetProfile(u8),
    /// List the onboard profiles.
    Profiles,
}

/// Why a request was refused.
#[derive(Clone, Copy, Debug, PartialEq, Eq, Structural)]
pub enum IpcError {
    TooLarge,
    /// The request did not end with a newline.
    Incomplete,
    NotUtf8,
    MissingProfile,
    /// The profile field is not a number from 0 to 255.
    InvalidProfile,
    MissingToken,
    /// A wrong token, or fields after the token.
    AuthenticationFailed,
    ProfileOutOfRange(u8),
    UnknownCommand,
}

/// `s` without trailing carriage returns and line feeds.
pub open spec fn trim_line_end(s: Seq<u8>) -> Seq<u8>
    decreases s.len(),
{
    if s.len() > 0 && (s.last() == 0x0D || s.last() == 0x0A) {
        trim_line_end(s.drop_last())
    } else {
        s
    }
}

/// The fields of `s` between single spaces, as `str::split(' ')` yields
/// them: one more field than there are spaces, empty fields included.
pub open spec fn split_spaces(s: Seq<u8>) -> Seq<Seq<u8>>
    decreases s.len(),
{
    if s.len() == 0 {
        seq![Seq::<u8>::empty()]
    } else {
        let rest = split_spaces(s.drop_last());
        if s.last() == 0x20 {
            rest.push(Seq::<u8>::empty())
        } else {
            rest.update(rest.len() - 1, rest.last().push(s.last()))
        }
    }
}

/// Every `split_spaces` result has at least one field.
pub proof fn lemma_split_nonempty(s: Seq<u8>)
    ensures
        split_spaces(s).len() >= 1,
    decreases s.len(),
{
    if s.len() > 0 {
        lemma_split_nonempty(s.drop_last());
    }
}

/// Whether every byte is an ASCII digit.
pub open spec fn all_digits(d: Seq<u8>) -> bool {
    forall|i: int| 0 <= i < d.len() ==> 0x30 <= #[trigger] d[i] <= 0x39
}

/// The value of a run of ASCII digits.
pub open spec fn digits_value(d: Seq<u8>) -> int
    decreases d.len(),
{
    if d.len() == 0 {
        0
    } else {
        digits_value(d.drop_last()) * 10 + (d.last() - 0x30)
    }
}

/// What `u8::from_str` accepts: an optional `+` followed by one or more
/// decimal digits whose value fits in a byte.
pub open spec fn parse_u8_spec(f: Seq<u8>) -> Option<u8> {
    let d = if f.len() > 0 && f[0] == 0x2B {
        f.drop_first()
    } else {
        f
    };
    if d.len() == 0 || !all_digits(d) || digits_value(d) > 255 {
        None
    } else {
        Some(digits_value(d) as u8)
    }
}

/// The bytes of `SET`.
pub open spec fn set_word() -> Seq<u8> {
    seq![0x53u8, 0x45u8, 0x54u8]
}

/// The bytes of `PROFILES`.
pub open spec fn profiles_word() -> Seq<u8> {
    seq![0x50u8, 0x52u8, 0x4Fu8, 0x46u8, 0x49u8, 0x4Cu8, 0x45u8, 0x53u8]
}

/// The answer to a request of `token` is `...` given its fields.
pub open spec fn request_from_fields(fields: Seq<Seq<u8>>, token: Seq<u8>) -> Result<IpcRequest, IpcError> {
    if fields[0] == set_word() {
        if fields.len() < 2 {
            Err(IpcError::MissingProfile)
        } else if parse_u8_spec(fields[1]) is None {
            Err(IpcError::InvalidProfile)
        } else if fields.len() < 3 {
            Err(IpcError::MissingToken)
        } else if fields.len() > 3 || fields[2] != token {
            Err(IpcError::AuthenticationFailed)
        } else if !valid_human_profile(parse_u8_spec(fields[1])->0 as int) {
            Err(IpcError::ProfileOutOfRange(parse_u8_spec(fields[1])->0))
        } else {
            Ok(IpcRequest::SetProfile(parse_u8_spec(fields[1])->0))
        }
    } else if fields[0] == profiles_word() {
        if fields.len() < 2 {
            Err(IpcError::MissingToken)
        } else if fields.len() > 2 || fields[1] != token {
            Err(IpcError::AuthenticationFailed)
        } else {
            Ok(IpcRequest::Profiles)
        }
    } else {
        Err(IpcError::UnknownCommand)
    }
}

/// What `parse_ipc_request` answers for the request bytes and the UTF-8
/// bytes of the expected token: a bounded, newline-terminated UTF-8 line
/// `SET <profile> <token>` or `PROFILES <token>`.
pub open spec fn ipc_request_spec(request: Seq<u8>, token: Seq<u8>) -> Result<IpcRequest, IpcError> {
    if request.len() > IPC_REQUEST_LIMIT {
        Err(IpcError::TooLarge)
    } else if request.len() == 0 || request.last() != 0x0A {
        Err(IpcError::Incomplete)
    } else if !valid_utf8(request) {
        Err(IpcError::NotUtf8)
    } else {
        request_from_fields(split_spaces(trim_line_end(request)), token)
    }
}

/// Requests are authenticated: an accepted request is a newline-terminated
/// UTF-8 line of at most 128 bytes, a `SET` names a profile P1-P4, and no
/// request is accepted under two different tokens.
pub proof fn lemma_accepted_requests_are_authenticated(
    request: Seq<u8>,
    token: Seq<u8>,
    other_token: Seq<u8>,
)
    ensures
        ipc_request_spec(request, token) is Ok ==> {
            &&& 0 < request.len() <= IPC_REQUEST_LIMIT
            &&& request.last() == 0x0A
            &&& valid_utf8(request)
        },
        ipc_request_spec(request, token) matches Ok(IpcRequest::SetProfile(p)) ==> 1 <= p <= 4,
        ipc_request_spec(request, token) is Ok && ipc_request_spec(request, other_token) is Ok
            ==> token == other_token,
{
}

/// Whether two byte strings are equal.
pub fn bytes_equal(a: &[u8], b: &[u8]) -> (r: bool)
    ensures
        r == (a@ == b@),
{
    if a.len() != b.len() {
        return false;
    }
    let mut i: usize = 0;
    while i < a.len()
        invariant
            a@.len() == b@.len(),
            i <= a@.len(),
            forall|j: int| 0 <= j < i ==> a@[j] == b@[j],
        decreases a@.len() - i,
    {
        if a[i] != b[i] {
            return false;
        }
        i += 1;
    }
    assert(a@ =~= b@);
    true
}

/// Splits `bytes[..end]` at single spaces.
fn split_fields(bytes: &[u8], end: usize) -> (fields: Vec<Vec<u8>>)
    requires
        end <= bytes@.len(),
    ensures
        fields@.len() == split_spaces(bytes@.subrange(0, end as int)).len(),
        forall|j: int|
            0 <= j < fields@.len() ==> #[trigger] fields@[j]@ == split_spaces(
                bytes@.subrange(0, end as int),
            )[j],
{
    let mut done: Vec<Vec<u8>> = Vec::new();
    let mut current: Vec<u8> = Vec::new();
    let mut i: usize = 0;
    while i < end
        invariant
            end <= bytes@.len(),
            i <= end,
            split_spaces(bytes@.subrange(0, i as int)).len() == done@.len() + 1,
            split_spaces(bytes@.subrange(0, i as int)).last() == current@,
            forall|j: int|
                0 <= j < done@.len() ==> #[trigger] done@[j]@ == split_spaces(
                    bytes@.subrange(0, i as int),
                )[j],
        decreases end - i,
    {
        let b = bytes[i];
        assert(bytes@.subrange(0, i + 1).drop_last() == bytes@.subrange(0, i as int));
        if b == 0x20 {
            done.push(current);
            current = Vec::new();
        } else {
            current.push(b);
        }
        i += 1;
    }
    done.push(current);
    done
}

/// The value of the digits `d[..i]`, capped at 256.
fn capped_digits_value(d: &[u8], start: usize) -> (r: u32)
    requires
        start <= d@.len(),
        all_digits(d@.subrange(start as int, d@.len() as int)),
    ensures
        r as int == if digits_value(d@.subrange(start as int, d@.len() as int)) > 256 {
            256
        } else {
            digits_value(d@.subrange(start as int, d@.len() as int))
        },
{
    let mut v: u32 = 0;
    let mut i: usize = start;
    while i < d.len()
        invariant
            start <= i <= d@.len(),
            all_digits(d@.subrange(start as int, d@.len() as int)),
            v as int == if digits_value(d@.subrange(start as int, i as int)) > 256 {
                256
            } else {
                digits_value(d@.subrange(start as int, i as int))
            },
        decreases d@.len() - i,
    {
        assert(d@.subrange(start as int, i + 1).drop_last() == d@.subrange(start as int, i as int));
        assert(d@.subrange(start as int, d@.len() as int)[i - start] == d@[i as int]);
        let digit = (d[i] - 0x30) as u32;
        let next = v * 10 + digit;
        v = if next > 256 {
            256
        } else {
            next
        };
        i += 1;
    }
    assert(d@.subrange(start as int, i as int) == d@.subrange(start as int, d@.len() as int));
    v
}

/// `u8::from_str` on ASCII bytes.
pub fn parse_u8_field(f: &[u8]) -> (r: Option<u8>)
    ensures
        r == parse_u8_spec(f@),
{
    let start: usize = if f.len() > 0 && f[0] == 0x2B {
        1
    } else {
        0
    };
    let ghost d = f@.subrange(start as int, f@.len() as int);
    assert(start == 1 ==> d == f@.drop_first());
    assert(start == 0 ==> d == f@);
    if start == f.len() {
        return None;
    }
    let mut i: usize = start;
    while i < f.len()
        invariant
            start <= i <= f@.len(),
            d == f@.subrange(start as int, f@.len() as int),
            d == (if f@.len() > 0 && f@[0] == 0x2B {
                f@.drop_first()
            } else {
                f@
            }),
            forall|j: int| start <= j < i ==> 0x30 <= #[trigger] f@[j] <= 0x39,
        decreases f@.len() - i,
    {
        if f[i] < 0x30 || f[i] > 0x39 {
            assert(d[i - start] == f@[i as int]);
            assert(!all_digits(d));
            return None;
        }
        i += 1;
    }
    assert(all_digits(d)) by {
        assert forall|j: int| 0 <= j < d.len() implies 0x30 <= #[trigger] d[j] <= 0x39 by {
            assert(d[j] == f@[start + j]);
        }
    }
    let v = capped_digits_value(f, start);
    if v > 255 {
        None
    } else {
        Some(v as u8)
    }
}

/// Parses one request line to the watcher: `SET <profile> <token>` or
/// `PROFILES <token>`, at most 128 bytes of UTF-8 ending in a newline.
/// The profile is checked only once the token has matched.
pub fn parse_ipc_request(request: &[u8], expected_token: &str) -> (r: Result<IpcRequest, IpcError>)
    ensures
        r == ipc_request_spec(request@, expected_token.spec_bytes()),
{
    let len = request.len();
    if len > IPC_REQUEST_LIMIT {
        return Err(IpcError::TooLarge);
    }
    if len == 0 || request[len - 1] != 0x0A {
        return Err(IpcError::Incomplete);
    }
    if str_from_utf8(request).is_none() {
        return Err(IpcError::NotUtf8);
    }
    let mut end: usize = len;
    assert(request@.subrange(0, len as int) == request@);
    while end > 0 && (request[end - 1] == 0x0D || request[end - 1] == 0x0A)
        invariant
            end <= request@.len(),
            trim_line_end(request@.subrange(0, end as int)) == trim_line_end(request@),
        decreases end,
    {
        assert(request@.subrange(0, end as int).drop_last() == request@.subrange(0, end - 1));
        end -= 1;
    }
    assert(request@.subrange(0, request@.len() as int) == request@);
    assert(trim_line_end(request@.subrange(0, end as int)) == request@.subrange(0, end as int));
    let fields = split_fields(request, end);
    let ghost sp = split_spaces(trim_line_end(request@));
    proof {
        lemma_split_nonempty(trim_line_end(request@));
    }
    let token = expected_token.as_bytes();
    let first = fields[0].as_slice();
    if bytes_equal(first, &[0x53u8, 0x45u8, 0x54u8]) {
        if fields.len() < 2 {
            return Err(IpcError::MissingProfile);
        }
        let profile = match parse_u8_field(fields[1].as_slice()) {
            None => {
                return Err(IpcError::InvalidProfile);
            },
            Some(p) => p,
        };
        if fields.len() < 3 {
            return Err(IpcError::MissingToken);
        }
        if fields.len() > 3 || !bytes_equal(fields[2].as_slice(), token) {
            return Err(IpcError::AuthenticationFailed);
        }
        if !(1 <= profile && profile <= 4) {
            return Err(IpcError::ProfileOutOfRange(profile));
        }
        Ok(IpcRequest::SetProfile(profile))
    } else if bytes_equal(first, &[0x50u8, 0x52u8, 0x4Fu8, 0x46u8, 0x49u8, 0x4Cu8, 0x45u8, 0x53u8]) {
        if fields.len() < 2 {
            return Err(IpcError::MissingToken);
        }
        if fields.len() > 2 || !bytes_equal(fields[1].as_slice(), token) {
            return Err(IpcError::AuthenticationFailed);
        }
        Ok(IpcRequest::Profiles)
    } else {
        Err(IpcError::UnknownCommand)
    }
}


/// The loopback port for a configuration whose normalized path hashes to
/// `path_hash`: one of 16384 ports from 49152 on.
pub fn ipc_port(path_hash: u64) -> (port: u16)
    ensures
        port == IPC_PORT_BASE + path_hash % (IPC_PORT_COUNT as u64),
{
    let offset = (path_hash % (IPC_PORT_COUNT as u64)) as u16;
    IPC_PORT_BASE + offset
}

/// What the standard library's default hasher (`DefaultHasher::new()`,
/// unkeyed) makes of a string.
pub uninterp spec fn default_str_hash(text: Seq<char>) -> u64;

/// What `str::to_lowercase` makes of a string (Unicode lowercase mapping).
pub uninterp spec fn unicode_lowercase(text: Seq<char>) -> Seq<char>;

/// `BuildHasher::hash_one` with `BuildHasherDefault<DefaultHasher>`: hashes
/// the string with an unkeyed `DefaultHasher`. Every `DefaultHasher::new()`
/// starts from the same state, so the hash is a function of the text; the
/// algorithm is not specified, so the value is named by `default_str_hash`.
#[verifier::external_body]
fn hash_text(text: &str) -> (h: u64)
    ensures
        h == default_str_hash(text@),
{
    std::hash::BuildHasher::hash_one(
        &std::hash::BuildHasherDefault::<std::hash::DefaultHasher>::default(),
        text,
    )
}

/// `str::to_lowercase`: the lowercase equivalent of the string, by the
/// Unicode tables of the standard library; named by `unicode_lowercase`.
#[verifier::external_body]
fn lowercase(text: &str) -> (lower: String)
    ensures
        lower@ == unicode_lowercase(text@),
{
    text.to_lowercase()
}

/// The text that names a configuration file for the endpoint: the path as
/// given, lowercased on Windows, where paths are case-insensitive.
pub open spec fn normalized_path(config_path: Seq<char>, windows: bool) -> Seq<char> {
    if windows {
        unicode_lowercase(config_path)
    } else {
        config_path
    }
}

/// The loopback port of the watcher for the configuration file at
/// `config_path` (the watcher listens on 127.0.0.1): the default hash of
/// the normalized path picks one of the ports `ipc_port` allows.
pub fn ipc_address(config_path: &str, windows: bool) -> (port: u16)
    ensures
        port == IPC_PORT_BASE + default_str_hash(normalized_path(config_path@, windows)) % (
        IPC_PORT_COUNT as u64),
{
    if windows {
        let lower = lowercase(config_path);
        ipc_port(hash_text(lower.as_str()))
    } else {
        ipc_port(hash_text(config_path))
    }
}

/// The name of the token file for the watcher on `port`.
pub open spec fn token_file_name(port: u16) -> Seq<char> {
    seq!['i', 'p', 'c', '-'] + decimal_text(port as nat) + seq!['.', 't', 'o', 'k', 'e', 'n']
}

/// The name of the token file for the watcher on `port`: `ipc-<port>.token`.
pub fn ipc_token_file_name(port: u16) -> (name: String)
    ensures
        name@ == token_file_name(port),
{
    let mut name = String::new();
    push_char(&mut name, 'i');
    push_char(&mut name, 'p');
    push_char(&mut name, 'c');
    push_char(&mut name, '-');
    push_decimal(&mut name, port as u32);
    push_char(&mut name, '.');
    push_char(&mut name, 't');
    push_char(&mut name, 'o');
    push_char(&mut name, 'k');
    push_char(&mut name, 'e');
    push_char(&mut name, 'n');
    assert(name@ =~= token_file_name(port));
    name
}

/// Number of random bytes in a token.
pub const IPC_TOKEN_BYTES: usize = 32;

/// Why no token is available.
#[derive(Clone, Copy, Debug, PartialEq, Eq, Structural)]
pub enum TokenError {
    /// The system's random source failed.
    RandomUnavailable,
    /// The token text is not 64 hexadecimal digits.
    Invalid,
}

/// `getrandom::Error`, the failure of the system's random source.
#[verifier::external_type_specification]
#[verifier::external_body]
pub struct ExRandomError(getrandom::Error);

/// `getrandom::fill`: fills the buffer from the system's random source.
/// What it writes is chance; nothing is stated of it, nor of the buffer
/// after a failure.
#[verifier::external_body]
fn fill_random(bytes: &mut [u8; 32]) -> (r: Result<(), getrandom::Error>) {
    getrandom::fill(bytes)
}

/// The token text for 32 bytes: their lowercase hexadecimal digits.
pub fn ipc_token_from_bytes(bytes: &[u8; 32]) -> (token: String)
    ensures
        token@ == hex_text(bytes@),
{
    let mut token = String::new();
    push_hex(&mut token, bytes.as_slice());
    token
}

/// A fresh token: 32 bytes from the system's random source, as 64
/// lowercase hexadecimal digits.
pub fn generate_ipc_token() -> (r: Result<String, TokenError>)
    ensures
        r matches Ok(token) ==> exists|bytes: Seq<u8>|
            bytes.len() == IPC_TOKEN_BYTES && #[trigger] hex_text(bytes) == token@,
        r matches Err(e) ==> e == TokenError::RandomUnavailable,
{
    let mut bytes = [0u8; 32];
    match fill_random(&mut bytes) {
        Err(_) => Err(TokenError::RandomUnavailable),
        Ok(()) => {
            let token = ipc_token_from_bytes(&bytes);
            assert(bytes@.len() == IPC_TOKEN_BYTES);
            Ok(token)
        },
    }
}

/// An ASCII hexadecimal digit, either case.
pub open spec fn is_hex_byte(b: u8) -> bool {
    (0x30 <= b <= 0x39) || (0x41 <= b <= 0x46) || (0x61 <= b <= 0x66)
}

/// What `validate_ipc_token` answers for the text of a token file: the
/// text without surrounding white space, when that is 64 hexadecimal
/// digits.
pub open spec fn token_check(text: Seq<char>) -> Result<Seq<char>, TokenError> {
    let t = trim_ws(text);
    let b = encode_utf8(t);
    if b.len() == 64 && forall|i: int| 0 <= i < b.len() ==> is_hex_byte(#[trigger] b[i]) {
        Ok(t)
    } else {
        Err(TokenError::Invalid)
    }
}

/// Checks the text read from a token file.
pub fn validate_ipc_token(text: &str) -> (r: Result<String, TokenError>)
    ensures
        match token_check(text@) {
            Ok(t) => r matches Ok(token) && token@ == t,
            Err(e) => r matches Err(e2) && e2 == e,
        },
{
    let token = trim_whitespace(text);
    let bytes = token.as_bytes();
    if bytes.len() != 64 {
        return Err(TokenError::Invalid);
    }
    let mut i: usize = 0;
    while i < bytes.len()
        invariant
            i <= bytes@.len(),
            bytes@ == encode_utf8(trim_ws(text@)),
            bytes@.len() == 64,
            forall|j: int| 0 <= j < i ==> is_hex_byte(#[trigger] bytes@[j]),
        decreases bytes@.len() - i,
    {
        let b = bytes[i];
        if !((0x30 <= b && b <= 0x39) || (0x41 <= b && b <= 0x46) || (0x61 <= b && b <= 0x66)) {
            assert(!is_hex_byte(bytes@[i as int]));
            return Err(TokenError::Invalid);
        }
        i += 1;
    }
    Ok(token.to_owned())
}

/// A lowercase hexadecimal digit.
pub open spec fn is_lower_hex_char(c: char) -> bool {
    ('0' <= c && c <= '9') || ('a' <= c && c <= 'f')
}

/// Every character of a hexadecimal text is a lowercase digit, and the
/// text has two characters per byte.
proof fn lemma_hex_text_shape(bytes: Seq<u8>)
    ensures
        hex_text(bytes).len() == 2 * bytes.len(),
        forall|i: int| 0 <= i < hex_text(bytes).len() ==> is_lower_hex_char(#[trigger] hex_text(bytes)[i]),
    decreases bytes.len(),
{
    if bytes.len() > 0 {
        lemma_hex_text_shape(bytes.drop_last());
        let hi = (bytes.last() / 16) as int;
        let lo = (bytes.last() % 16) as int;
        assert(is_lower_hex_char(hex_digit(hi)));
        assert(is_lower_hex_char(hex_digit(lo)));
        let prev = hex_text(bytes.drop_last());
        assert forall|i: int| 0 <= i < hex_text(bytes).len() implies is_lower_hex_char(#[trigger] hex_text(bytes)[i]) by {
            if i < prev.len() {
                assert(hex_text(bytes)[i] == prev[i]);
            }
        }
    }
}

/// A token the watcher generates is accepted by every client that reads
/// it back: for any 32 bytes, the token text passes the token check and
/// reads back unchanged.
pub proof fn lemma_generated_token_accepted(bytes: Seq<u8>)
    requires
        bytes.len() == IPC_TOKEN_BYTES,
    ensures
        token_check(hex_text(bytes)) == Ok::<Seq<char>, TokenError>(hex_text(bytes)),
{
    let t = hex_text(bytes);
    lemma_hex_text_shape(bytes);
    assert(!is_white_space(t[0]));
    assert(trim_start_ws(t) == t);
    assert(!is_white_space(t.last()));
    assert(trim_end_ws(t) == t);
    assert forall|i: int| 0 <= i < t.len() implies '\0' <= #[trigger] t[i] <= '\u{7f}' by {
        assert(is_lower_hex_char(t[i]));
    }
    assert(vstd::utf8::is_ascii_chars(t));
    vstd::utf8::is_ascii_chars_encode_utf8(t);
    let b = encode_utf8(t);
    assert forall|i: int| 0 <= i < b.len() implies is_hex_byte(#[trigger] b[i]) by {
        assert(b[i] == t[i] as u8);
        assert(is_lower_hex_char(t[i]));
    }
}

/// Whether the watcher's answer to `SET` is the acknowledgement `OK`,
/// surrounding white space aside.
pub fn set_reply_accepted(reply: &str) -> (accepted: bool)
    ensures
        accepted == (trim_ws(reply@) == seq!['O', 'K']),
{
    let t = trim_whitespace(reply);
    let accepted = t.unicode_len() == 2 && t.get_char(0) == 'O' && t.get_char(1) == 'K';
    assert(accepted ==> t@ =~= seq!['O', 'K']);
    accepted
}

/// Largest accepted answer to `PROFILES`, in bytes.
pub const PROFILES_REPLY_LIMIT: usize = 8192;

/// Why the watcher's answer to `PROFILES` is not usable.
#[derive(Clone, Debug, PartialEq, Eq)]
pub enum ProfilesReplyError {
    Oversized,
    NotUtf8,
    /// The watcher answered `ERR` with this explanation.
    Rejected(String),
}

/// The first four characters of an error answer.
pub open spec fn err_prefix() -> Seq<char> {
    seq!['E', 'R', 'R', ' ']
}

/// Classifies the watcher's answer to `PROFILES`: at most 8192 bytes of
/// UTF-8; after trimming, `ERR <explanation>` is a refusal and anything
/// else is the profile list (as JSON text).
pub fn classify_profiles_reply(reply: &[u8]) -> (r: Result<String, ProfilesReplyError>)
    ensures
        reply@.len() > PROFILES_REPLY_LIMIT ==> r matches Err(ProfilesReplyError::Oversized),
        reply@.len() <= PROFILES_REPLY_LIMIT && !valid_utf8(reply@) ==> r matches Err(
            ProfilesReplyError::NotUtf8,
        ),
        reply@.len() <= PROFILES_REPLY_LIMIT && valid_utf8(reply@) ==> {
            let t = trim_ws(vstd::utf8::decode_utf8(reply@));
            if t.len() >= 4 && t.subrange(0, 4) == err_prefix() {
                r matches Err(ProfilesReplyError::Rejected(why)) && why@ == t.subrange(4, t.len() as int)
            } else {
                r matches Ok(json) && json@ == t
            }
        },
{
    if reply.len() > PROFILES_REPLY_LIMIT {
        return Err(ProfilesReplyError::Oversized);
    }
    let text = match str_from_utf8(reply) {
        None => {
            return Err(ProfilesReplyError::NotUtf8);
        },
        Some(text) => text,
    };
    let t = trim_whitespace(text);
    let n = t.unicode_len();
    if n >= 4 && t.get_char(0) == 'E' && t.get_char(1) == 'R' && t.get_char(2) == 'R'
        && t.get_char(3) == ' ' {
        assert(t@.subrange(0, 4) =~= err_prefix());
        let why = t.substring_char(4, n);
        return Err(ProfilesReplyError::Rejected(why.to_owned()));
    }
    assert(n >= 4 ==> (t@.subrange(0, 4) == err_prefix() ==> t@[0] == 'E' && t@[1] == 'R' && t@[2] == 'R' && t@[3] == ' '));
    Ok(t.to_owned())
}

} // verus!
