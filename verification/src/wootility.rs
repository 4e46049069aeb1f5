//! Profile names from Wootility's browser state: the LevelDB value that the
//! web app persists, decoded from Chromium's string encoding and read as
//! JSON through `serde_json`.
use vstd::prelude::*;

use crate::config::{name_error, validate_profile_name, NameError};
use crate::protocol::PROFILE_COUNT;

verus! {

/// What a JSON value holds, as the queries of this crate see it. Numbers
/// are not read, so their value is not modelled.
pub enum JsonModel {
    Null,
    Bool(bool),
    Number,
    Text(Seq<char>),
    Array(Seq<JsonModel>),
    Object(Map<Seq<char>, JsonModel>),
}

/// `serde_json::Value`, a parsed JSON document.
#[verifier::external_type_specification]
#[verifier::external_body]
pub struct ExJsonValue(serde_json::Value);

/// What a `serde_json::Value` holds.
pub uninterp spec fn json_contents(value: serde_json::Value) -> JsonModel;

/// What `serde_json::from_str::<Value>` makes of a text: the document, or
/// `None` where the text is not JSON.
pub uninterp spec fn json_parse(text: Seq<char>) -> Option<JsonModel>;

/// `serde_json::from_str::<serde_json::Value>`: parses a JSON document.
/// Stated: the result is the parse of the text, failure included; the
/// grammar itself is left to `serde_json` and named by `json_parse`.
#[verifier::external_body]
fn parse_json(text: &str) -> (r: Option<serde_json::Value>)
    ensures
        r is None <==> json_parse(text@) is None,
        r matches Some(v) ==> json_parse(text@) == Some(json_contents(v)),
{
    serde_json::from_str::<serde_json::Value>(text).ok()
}


/// The member `key` of an object.
pub open spec fn member(j: JsonModel, key: Seq<char>) -> Option<JsonModel> {
    match j {
        JsonModel::Object(m) => if m.contains_key(key) {
            Some(m[key])
        } else {
            None
        },
        _ => None,
    }
}

/// The text of a string value.
pub open spec fn as_text(j: JsonModel) -> Option<Seq<char>> {
    match j {
        JsonModel::Text(s) => Some(s),
        _ => None,
    }
}

/// The items of an array value.
pub open spec fn as_items(j: JsonModel) -> Option<Seq<JsonModel>> {
    match j {
        JsonModel::Array(items) => Some(items),
        _ => None,
    }
}

/// `serde_json::Value::get` with a string key: the member of that name
/// when the value is an object that has one, `None` otherwise.
#[verifier::external_body]
fn json_member<'a>(value: &'a serde_json::Value, key: &str) -> (r: Option<&'a serde_json::Value>)
    ensures
        match member(json_contents(*value), key@) {
            Some(m) => r matches Some(v) && json_contents(*v) == m,
            None => r is None,
        },
{
    value.get(key)
}

/// `serde_json::Value::as_str`: the text when the value is a string.
#[verifier::external_body]
fn json_text<'a>(value: &'a serde_json::Value) -> (r: Option<&'a str>)
    ensures
        match as_text(json_contents(*value)) {
            Some(t) => r matches Some(s) && s@ == t,
            None => r is None,
        },
{
    value.as_str()
}

/// `serde_json::Value::as_array`: the items when the value is an array.
#[verifier::external_body]
fn json_items<'a>(value: &'a serde_json::Value) -> (r: Option<&'a Vec<serde_json::Value>>)
    ensures
        match as_items(json_contents(*value)) {
            Some(items) => r matches Some(a) && a@.len() == items.len() && forall|i: int|
                0 <= i < items.len() ==> #[trigger] json_contents(a@[i]) == items[i],
            None => r is None,
        },
{
    value.as_array()
}

/// What `encoding_rs::UTF_16LE.decode` makes of some bytes.
pub uninterp spec fn utf16le_decoding(bytes: Seq<u8>) -> Seq<char>;

/// What `encoding_rs::WINDOWS_1252.decode` makes of some bytes.
pub uninterp spec fn windows1252_decoding(bytes: Seq<u8>) -> Seq<char>;

/// Largest input the decoders take: `encoding_rs` panics when the size of
/// its output buffer overflows.
pub open spec fn decodable_len(len: int) -> bool {
    len <= usize::MAX / 4
}

/// `encoding_rs::UTF_16LE.decode`: decodes UTF-16LE (with BOM sniffing and
/// replacement of malformed sequences). The text is named by
/// `utf16le_decoding`; the decoding itself is `encoding_rs`'s.
#[verifier::external_body]
fn decode_utf16le(bytes: &[u8]) -> (text: String)
    requires
        decodable_len(bytes@.len() as int),
    ensures
        text@ == utf16le_decoding(bytes@),
{
    encoding_rs::UTF_16LE.decode(bytes).0.into_owned()
}

/// `encoding_rs::WINDOWS_1252.decode`: decodes windows-1252 (with BOM
/// sniffing). The text is named by `windows1252_decoding`; the decoding
/// itself is `encoding_rs`'s.
#[verifier::external_body]
fn decode_windows1252(bytes: &[u8]) -> (text: String)
    requires
        decodable_len(bytes@.len() as int),
    ensures
        text@ == windows1252_decoding(bytes@),
{
    encoding_rs::WINDOWS_1252.decode(bytes).0.into_owned()
}

/// Why a Chromium local-storage string could not be decoded.
#[derive(Clone, Copy, Debug, PartialEq, Eq, Structural)]
pub enum ChromiumStringError {
    Empty,
    UnsupportedPrefix(u8),
}

/// What `decode_chromium_string` answers: prefix byte 0 marks UTF-16LE,
/// prefix byte 1 marks windows-1252 (Chromium's Latin-1 form).
pub open spec fn chromium_text(bytes: Seq<u8>) -> Result<Seq<char>, ChromiumStringError> {
    if bytes.len() == 0 {
        Err(ChromiumStringError::Empty)
    } else if bytes[0] == 0 {
        Ok(utf16le_decoding(bytes.drop_first()))
    } else if bytes[0] == 1 {
        Ok(windows1252_decoding(bytes.drop_first()))
    } else {
        Err(ChromiumStringError::UnsupportedPrefix(bytes[0]))
    }
}

/// Decodes a string value of Chromium's local storage.
pub fn decode_chromium_string(bytes: &[u8]) -> (r: Result<String, ChromiumStringError>)
    requires
        decodable_len(bytes@.len() as int),
    ensures
        match chromium_text(bytes@) {
            Ok(t) => r matches Ok(s) && s@ == t,
            Err(e) => r matches Err(e2) && e2 == e,
        },
{
    if bytes.len() == 0 {
        return Err(ChromiumStringError::Empty);
    }
    let prefix = bytes[0];
    let rest = &bytes[1..bytes.len()];
    assert(rest@ == bytes@.drop_first());
    if prefix == 0 {
        Ok(decode_utf16le(rest))
    } else if prefix == 1 {
        Ok(decode_windows1252(rest))
    } else {
        Err(ChromiumStringError::UnsupportedPrefix(prefix))
    }
}

/// Why Wootility's profile state could not be read.
#[derive(Clone, Copy, Debug, PartialEq, Eq, Structural)]
pub enum WootilityError {
    Decode(ChromiumStringError),
    /// A text that must be JSON is not.
    MalformedJson,
    /// No entry of the browser profile holds Wootility's state.
    NotPresent,
    MissingDevices,
    NoActiveDevice,
    MissingProfiles,
    NoDeviceProfiles,
    NoOnboardProfiles,
    InvalidName(NameError),
}

/// The JSON document stored under a LevelDB value, if it decodes and parses.
pub open spec fn stored_json(value: Seq<u8>) -> Option<JsonModel> {
    match chromium_text(value) {
        Ok(t) => json_parse(t),
        Err(_) => None,
    }
}

/// Whether `key` ends with `suffix`.
pub open spec fn ends_with(key: Seq<u8>, suffix: Seq<u8>) -> bool {
    key.len() >= suffix.len() && key.subrange(key.len() - suffix.len(), key.len() as int) == suffix
}

/// Whether the entry is Wootility's persisted state: its key ends with
/// `suffix` and its value is a JSON document with `devices` and `profiles`.
pub open spec fn is_state_entry(entry: (Seq<u8>, Seq<u8>), suffix: Seq<u8>) -> bool {
    &&& ends_with(entry.0, suffix)
    &&& stored_json(entry.1) is Some
    &&& member(stored_json(entry.1)->0, seq!['d', 'e', 'v', 'i', 'c', 'e', 's']) is Some
    &&& member(stored_json(entry.1)->0, seq!['p', 'r', 'o', 'f', 'i', 'l', 'e', 's']) is Some
}

/// The views of LevelDB entries.
pub open spec fn entry_views(entries: Seq<(Vec<u8>, Vec<u8>)>) -> Seq<(Seq<u8>, Seq<u8>)> {
    entries.map_values(|e: (Vec<u8>, Vec<u8>)| (e.0@, e.1@))
}

/// The first state entry, scanning from `i`.
pub open spec fn first_state_entry(entries: Seq<(Seq<u8>, Seq<u8>)>, suffix: Seq<u8>, i: int) -> Option<JsonModel>
    decreases entries.len() - i,
{
    if i < 0 || i >= entries.len() {
        None
    } else if is_state_entry(entries[i], suffix) {
        stored_json(entries[i].1)
    } else {
        first_state_entry(entries, suffix, i + 1)
    }
}

/// What `wootility_root` answers: the value stored under Wootility's own
/// key when there is one (which must decode and parse), else the first
/// entry whose key ends with the persist suffix and whose value is a JSON
/// document with `devices` and `profiles`.
pub open spec fn root_spec(
    direct: Option<Seq<u8>>,
    entries: Seq<(Seq<u8>, Seq<u8>)>,
    suffix: Seq<u8>,
) -> Result<JsonModel, WootilityError> {
    match direct {
        Some(value) => match chromium_text(value) {
            Err(e) => Err(WootilityError::Decode(e)),
            Ok(t) => match json_parse(t) {
                None => Err(WootilityError::MalformedJson),
                Some(j) => Ok(j),
            },
        },
        None => match first_state_entry(entries, suffix, 0) {
            None => Err(WootilityError::NotPresent),
            Some(j) => Ok(j),
        },
    }
}

/// Whether `key` ends with `suffix`.
fn key_ends_with(key: &[u8], suffix: &[u8]) -> (r: bool)
    ensures
        r == ends_with(key@, suffix@),
{
    if key.len() < suffix.len() {
        return false;
    }
    let klen = key.len();
    let offset = klen - suffix.len();
    let mut i: usize = 0;
    while i < suffix.len()
        invariant
            klen == key@.len(),
            offset + suffix@.len() == klen,
            i <= suffix@.len(),
            forall|j: int| 0 <= j < i ==> key@[offset + j] == suffix@[j],
        decreases suffix@.len() - i,
    {
        if key[offset + i] != suffix[i] {
            assert(key@.subrange(offset as int, key@.len() as int)[i as int] != suffix@[i as int]);
            return false;
        }
        i += 1;
    }
    assert(key@.subrange(offset as int, key@.len() as int) =~= suffix@);
    true
}

/// The JSON document stored under a LevelDB value, if it decodes and parses.
fn read_stored_json(value: &[u8]) -> (r: Option<serde_json::Value>)
    requires
        decodable_len(value@.len() as int),
    ensures
        match stored_json(value@) {
            Some(j) => r matches Some(v) && json_contents(v) == j,
            None => r is None,
        },
{
    match decode_chromium_string(value) {
        Err(_) => None,
        Ok(text) => parse_json(text.as_str()),
    }
}

/// Finds Wootility's persisted state in one browser profile's local
/// storage: `direct` is the value stored under Wootility's own key, if
/// present; otherwise `entries` (all entries, in iteration order) are
/// searched for a key ending in `suffix`.
pub fn wootility_root(direct: Option<&[u8]>, entries: &Vec<(Vec<u8>, Vec<u8>)>, suffix: &[u8]) -> (r:
    Result<serde_json::Value, WootilityError>)
    requires
        direct matches Some(d) ==> decodable_len(d@.len() as int),
        forall|i: int| 0 <= i < entries@.len() ==> decodable_len((#[trigger] entries@[i]).1@.len() as int),
    ensures
        match root_spec(
            match direct {
                Some(d) => Some(d@),
                None => None,
            },
            entry_views(entries@),
            suffix@,
        ) {
            Ok(j) => r matches Ok(v) && json_contents(v) == j,
            Err(e) => r matches Err(e2) && e2 == e,
        },
{
    if let Some(value) = direct {
        let text = match decode_chromium_string(value) {
            Err(e) => {
                return Err(WootilityError::Decode(e));
            },
            Ok(text) => text,
        };
        return match parse_json(text.as_str()) {
            None => Err(WootilityError::MalformedJson),
            Some(v) => Ok(v),
        };
    }
    let ghost views = entry_views(entries@);
    let mut i: usize = 0;
    while i < entries.len()
        invariant
            direct is None,
            i <= entries@.len(),
            views == entry_views(entries@),
            forall|k: int| 0 <= k < entries@.len() ==> decodable_len((#[trigger] entries@[k]).1@.len() as int),
            first_state_entry(views, suffix@, i as int) == first_state_entry(views, suffix@, 0),
        decreases entries@.len() - i,
    {
        let key = entries[i].0.as_slice();
        let value = entries[i].1.as_slice();
        assert(views[i as int] == (key@, value@));
        if key_ends_with(key, suffix) {
            match read_stored_json(value) {
                None => {},
                Some(candidate) => {
                    proof {
                        reveal_strlit("devices");
                        reveal_strlit("profiles");
                    }
                    assert("devices"@ =~= seq!['d', 'e', 'v', 'i', 'c', 'e', 's']);
                    assert("profiles"@ =~= seq!['p', 'r', 'o', 'f', 'i', 'l', 'e', 's']);
                    let has_devices = json_member(&candidate, "devices").is_some();
                    let has_profiles = json_member(&candidate, "profiles").is_some();
                    if has_devices && has_profiles {
                        return Ok(candidate);
                    }
                },
            }
        }
        i += 1;
    }
    Err(WootilityError::NotPresent)
}


/// The text member `key` of an object.
pub open spec fn text_member(j: JsonModel, key: Seq<char>) -> Option<Seq<char>> {
    match member(j, key) {
        Some(m) => as_text(m),
        None => None,
    }
}

/// The array member `key` of an object.
pub open spec fn items_member(j: JsonModel, key: Seq<char>) -> Option<Seq<JsonModel>> {
    match member(j, key) {
        Some(m) => as_items(m),
        None => None,
    }
}

/// The member `inner` of the member `outer` of an object.
pub open spec fn nested_member(j: JsonModel, outer: Seq<char>, inner: Seq<char>) -> Option<JsonModel> {
    match member(j, outer) {
        Some(m) => member(m, inner),
        None => None,
    }
}

/// The name of an onboard profile entry: `details.name`, when it is text.
pub open spec fn entry_name(item: JsonModel) -> Option<Seq<char>> {
    match member(item, seq!['d', 'e', 't', 'a', 'i', 'l', 's']) {
        Some(details) => match member(details, seq!['n', 'a', 'm', 'e']) {
            Some(name) => as_text(name),
            None => None,
        },
        None => None,
    }
}

/// The named onboard entries among `items[i..n]`, numbered from 1 by their
/// position; entries without a name are skipped, and the first invalid
/// name fails the whole list.
pub open spec fn onboard_entries(items: Seq<JsonModel>, i: int, n: int) -> Result<Seq<(u8, Seq<char>)>, NameError>
    decreases n - i,
{
    if i >= n {
        Ok(seq![])
    } else {
        match entry_name(items[i]) {
            None => onboard_entries(items, i + 1, n),
            Some(name) => match name_error(name) {
                Some(e) => Err(e),
                None => match onboard_entries(items, i + 1, n) {
                    Ok(rest) => Ok(seq![((i + 1) as u8, name)] + rest),
                    Err(e) => Err(e),
                },
            },
        }
    }
}

/// The entries `onboard_entries` yields are numbered names: each carries the
/// human-facing number of its position (`position + 1`), is the text of that
/// entry's `details.name`, and is a valid profile name; numbers increase,
/// and every named entry in the range is listed.
pub proof fn lemma_onboard_entries_are_numbered_names(items: Seq<JsonModel>, i: int, n: int)
    requires
        0 <= i <= n <= items.len(),
        n < 256,
    ensures
        onboard_entries(items, i, n) matches Ok(es) ==> {
            &&& es.len() <= n - i
            &&& forall|k: int|
                0 <= k < es.len() ==> {
                    &&& i < (#[trigger] es[k]).0 <= n
                    &&& entry_name(items[es[k].0 - 1]) == Some(es[k].1)
                    &&& name_error(es[k].1) is None
                }
            &&& forall|k: int, l: int| 0 <= k < l < es.len() ==> (#[trigger] es[k]).0 < (#[trigger] es[l]).0
            &&& forall|idx: int|
                i <= idx < n && (#[trigger] entry_name(items[idx])) is Some ==> exists|k: int|
                    0 <= k < es.len() && (#[trigger] es[k]).0 == idx + 1
        },
    decreases n - i,
{
    if i < n {
        lemma_onboard_entries_are_numbered_names(items, i + 1, n);
        if onboard_entries(items, i, n) is Ok {
            let es = onboard_entries(items, i, n)->Ok_0;
            if entry_name(items[i]) is Some {
                let name = entry_name(items[i])->0;
                let rest = onboard_entries(items, i + 1, n)->Ok_0;
                assert(es == seq![((i + 1) as u8, name)] + rest);
                assert forall|k: int| 0 < k < es.len() implies es[k] == rest[k - 1] by {}
                assert forall|k: int, l: int| 0 <= k < l < es.len() implies (#[trigger] es[k]).0
                    < (#[trigger] es[l]).0 by {
                    if k > 0 {
                        assert(es[k] == rest[k - 1] && es[l] == rest[l - 1]);
                    } else {
                        assert(es[l] == rest[l - 1]);
                    }
                }
                assert forall|idx: int|
                    i <= idx < n && (#[trigger] entry_name(items[idx])) is Some implies exists|k: int|
                        0 <= k < es.len() && (#[trigger] es[k]).0 == idx + 1 by {
                    if idx == i {
                        assert(es[0].0 == idx + 1);
                    } else {
                        let k = choose|k: int| 0 <= k < rest.len() && (#[trigger] rest[k]).0 == idx + 1;
                        assert(es[k + 1] == rest[k]);
                    }
                }
            } else {
                assert(es == onboard_entries(items, i + 1, n)->Ok_0);
            }
        }
    }
}

/// The names read from Wootility's state are at most four valid names, each
/// numbered P1-P4 by its onboard position, in increasing order.
pub proof fn lemma_cached_onboard_names(root: JsonModel)
    ensures
        cache_spec(root) matches Ok((names, _)) ==> {
            &&& names.len() <= 4
            &&& forall|k: int|
                0 <= k < names.len() ==> 1 <= (#[trigger] names[k]).0 <= 4 && name_error(names[k].1)
                    is None
            &&& forall|k: int, l: int| 0 <= k < l < names.len() ==> (#[trigger] names[k]).0 < (#[trigger] names[l]).0
        },
{
    if let Ok(record) = device_profiles_spec(root) {
        if let Some(items) = items_member(record, key_onboard()) {
            let n = if items.len() < PROFILE_COUNT {
                items.len() as int
            } else {
                PROFILE_COUNT as int
            };
            lemma_onboard_entries_are_numbered_names(items, 0, n);
        }
    }
}

/// The views of numbered names.
pub open spec fn pairs_view(pairs: Seq<(u8, String)>) -> Seq<(u8, Seq<char>)> {
    pairs.map_values(|p: (u8, String)| (p.0, p.1@))
}

/// What Wootility's state records for the active keyboard.
pub struct WootilityProfileCache {
    /// Named onboard profiles (human-facing number, name), at most four.
    pub onboard: Vec<(u8, String)>,
    /// Number of App Linking profiles, when recorded.
    pub linked_count: Option<usize>,
}

/// The key names the state uses.
pub open spec fn key_devices() -> Seq<char> {
    seq!['d', 'e', 'v', 'i', 'c', 'e', 's']
}

pub open spec fn key_profiles() -> Seq<char> {
    seq!['p', 'r', 'o', 'f', 'i', 'l', 'e', 's']
}

pub open spec fn key_active_device() -> Seq<char> {
    seq!['a', 'c', 't', 'i', 'v', 'e', 'D', 'e', 'v', 'i', 'c', 'e', 'I', 'd']
}

pub open spec fn key_onboard() -> Seq<char> {
    seq!['o', 'n', 'b', 'o', 'a', 'r', 'd']
}

pub open spec fn key_linked() -> Seq<char> {
    seq!['l', 'i', 'n', 'k', 'e', 'd']
}

/// The profile record of the active keyboard: `devices` (a JSON text)
/// names the `activeDeviceId`, and `profiles` (a JSON text) holds
/// `devices[<that id>]`.
pub open spec fn device_profiles_spec(root: JsonModel) -> Result<JsonModel, WootilityError> {
    match text_member(root, key_devices()) {
        None => Err(WootilityError::MissingDevices),
        Some(devices_text) => match json_parse(devices_text) {
            None => Err(WootilityError::MalformedJson),
            Some(devices) => match text_member(devices, key_active_device()) {
                None => Err(WootilityError::NoActiveDevice),
                Some(active) => match text_member(root, key_profiles()) {
                    None => Err(WootilityError::MissingProfiles),
                    Some(profiles_text) => match json_parse(profiles_text) {
                        None => Err(WootilityError::MalformedJson),
                        Some(profiles) => match nested_member(profiles, key_devices(), active) {
                            None => Err(WootilityError::NoDeviceProfiles),
                            Some(record) => Ok(record),
                        },
                    },
                },
            },
        },
    }
}

/// What `profile_cache_from_root` answers: the named onboard entries among
/// the first four, and the number of linked profiles when `linked` is an
/// array.
pub open spec fn cache_spec(root: JsonModel) -> Result<(Seq<(u8, Seq<char>)>, Option<nat>), WootilityError> {
    match device_profiles_spec(root) {
        Err(e) => Err(e),
        Ok(record) => match items_member(record, key_onboard()) {
            None => Err(WootilityError::NoOnboardProfiles),
            Some(items) => {
                let n = if items.len() < PROFILE_COUNT {
                    items.len() as int
                } else {
                    PROFILE_COUNT as int
                };
                match onboard_entries(items, 0, n) {
                    Err(e) => Err(WootilityError::InvalidName(e)),
                    Ok(entries) => Ok(
                        (
                            entries,
                            match items_member(record, key_linked()) {
                                Some(linked) => Some(linked.len()),
                                None => None,
                            },
                        ),
                    ),
                }
            },
        }
    }
}

/// `details.name` of an onboard entry, when it is text.
fn read_entry_name(item: &serde_json::Value) -> (r: Option<&str>)
    ensures
        match entry_name(json_contents(*item)) {
            Some(t) => r matches Some(s) && s@ == t,
            None => r is None,
        },
{
    proof {
        reveal_strlit("details");
        reveal_strlit("name");
    }
    assert("details"@ =~= seq!['d', 'e', 't', 'a', 'i', 'l', 's']);
    assert("name"@ =~= seq!['n', 'a', 'm', 'e']);
    match json_member(item, "details") {
        None => None,
        Some(details) => match json_member(details, "name") {
            None => None,
            Some(name) => json_text(name),
        },
    }
}

/// The named onboard profiles among the first `n` entries.
fn read_onboard(items: &Vec<serde_json::Value>, n: usize) -> (r: Result<Vec<(u8, String)>, NameError>)
    requires
        n <= items@.len(),
        n <= PROFILE_COUNT,
    ensures
        match onboard_entries(items@.map_values(|v: serde_json::Value| json_contents(v)), 0, n as int) {
            Ok(entries) => r matches Ok(v) && pairs_view(v@) == entries,
            Err(e) => r matches Err(e2) && e2 == e,
        },
{
    let ghost model = items@.map_values(|v: serde_json::Value| json_contents(v));
    let mut found: Vec<(u8, String)> = Vec::new();
    let mut i: usize = 0;
    while i < n
        invariant
            n <= items@.len(),
            n <= PROFILE_COUNT,
            i <= n,
            model == items@.map_values(|v: serde_json::Value| json_contents(v)),
            onboard_entries(model, 0, n as int) == match onboard_entries(model, i as int, n as int) {
                Ok(rest) => Ok::<Seq<(u8, Seq<char>)>, NameError>(pairs_view(found@) + rest),
                Err(e) => Err(e),
            },
        decreases n - i,
    {
        assert(model[i as int] == json_contents(items@[i as int]));
        match read_entry_name(&items[i]) {
            None => {},
            Some(name) => {
                match validate_profile_name(name) {
                    Err(e) => {
                        return Err(e);
                    },
                    Ok(()) => {},
                }
                let ghost before = found@;
                found.push(((i + 1) as u8, name.to_owned()));
                assert(pairs_view(found@) =~= pairs_view(before).push(((i + 1) as u8, name@)));
                assert(forall|rest: Seq<(u8, Seq<char>)>|
                    #![trigger pairs_view(before) + (seq![((i + 1) as u8, name@)] + rest)]
                    pairs_view(before) + (seq![((i + 1) as u8, name@)] + rest) =~= pairs_view(found@) + rest);
            },
        }
        i += 1;
    }
    assert(pairs_view(found@) + seq![] =~= pairs_view(found@));
    Ok(found)
}

/// Reads the active keyboard's onboard profile names and App Linking count
/// from Wootility's persisted state.
pub fn profile_cache_from_root(root: &serde_json::Value) -> (r: Result<WootilityProfileCache, WootilityError>)
    ensures
        match cache_spec(json_contents(*root)) {
            Ok((entries, linked)) => r matches Ok(cache) && pairs_view(cache.onboard@) == entries
                && match linked {
                Some(k) => cache.linked_count == Some(k as usize),
                None => cache.linked_count is None,
            },
            Err(e) => r matches Err(e2) && e2 == e,
        },
{
    proof {
        reveal_strlit("devices");
        reveal_strlit("activeDeviceId");
        reveal_strlit("profiles");
        reveal_strlit("onboard");
        reveal_strlit("linked");
    }
    assert("devices"@ =~= key_devices());
    assert("activeDeviceId"@ =~= key_active_device());
    assert("profiles"@ =~= key_profiles());
    assert("onboard"@ =~= key_onboard());
    assert("linked"@ =~= key_linked());
    let devices_text = match json_member(root, "devices") {
        None => {
            return Err(WootilityError::MissingDevices);
        },
        Some(d) => match json_text(d) {
            None => {
                return Err(WootilityError::MissingDevices);
            },
            Some(t) => t,
        },
    };
    let devices = match parse_json(devices_text) {
        None => {
            return Err(WootilityError::MalformedJson);
        },
        Some(d) => d,
    };
    let active_device = match json_member(&devices, "activeDeviceId") {
        None => {
            return Err(WootilityError::NoActiveDevice);
        },
        Some(a) => match json_text(a) {
            None => {
                return Err(WootilityError::NoActiveDevice);
            },
            Some(t) => t,
        },
    };
    let profiles_text = match json_member(root, "profiles") {
        None => {
            return Err(WootilityError::MissingProfiles);
        },
        Some(p) => match json_text(p) {
            None => {
                return Err(WootilityError::MissingProfiles);
            },
            Some(t) => t,
        },
    };
    let profiles = match parse_json(profiles_text) {
        None => {
            return Err(WootilityError::MalformedJson);
        },
        Some(p) => p,
    };
    let record = match json_member(&profiles, "devices") {
        None => {
            return Err(WootilityError::NoDeviceProfiles);
        },
        Some(d) => match json_member(d, active_device) {
            None => {
                return Err(WootilityError::NoDeviceProfiles);
            },
            Some(r) => r,
        },
    };
    let items = match json_member(record, "onboard") {
        None => {
            return Err(WootilityError::NoOnboardProfiles);
        },
        Some(o) => match json_items(o) {
            None => {
                return Err(WootilityError::NoOnboardProfiles);
            },
            Some(items) => items,
        },
    };
    let n: usize = if items.len() < 4 {
        items.len()
    } else {
        4
    };
    let ghost model = items@.map_values(|v: serde_json::Value| json_contents(v));
    assert(model =~= items_member(json_contents(*record), key_onboard())->0);
    let onboard = match read_onboard(items, n) {
        Err(e) => {
            return Err(WootilityError::InvalidName(e));
        },
        Ok(found) => found,
    };
    let linked_count = match json_member(record, "linked") {
        None => None,
        Some(l) => match json_items(l) {
            None => None,
            Some(linked) => Some(linked.len()),
        },
    };
    Ok(WootilityProfileCache { onboard, linked_count })
}

/// Reads Wootility's persisted profile state from one browser profile's
/// local storage (see `wootility_root`).
pub fn load_profile_cache_from_leveldb(
    direct: Option<&[u8]>,
    entries: &Vec<(Vec<u8>, Vec<u8>)>,
    suffix: &[u8],
) -> (r: Result<WootilityProfileCache, WootilityError>)
    requires
        direct matches Some(d) ==> decodable_len(d@.len() as int),
        forall|i: int| 0 <= i < entries@.len() ==> decodable_len((#[trigger] entries@[i]).1@.len() as int),
    ensures
        match root_spec(
            match direct {
                Some(d) => Some(d@),
                None => None,
            },
            entry_views(entries@),
            suffix@,
        ) {
            Err(e) => r matches Err(e2) && e2 == e,
            Ok(root) => match cache_spec(root) {
                Ok((names, linked)) => r matches Ok(cache) && pairs_view(cache.onboard@) == names
                    && match linked {
                    Some(k) => cache.linked_count == Some(k as usize),
                    None => cache.linked_count is None,
                },
                Err(e) => r matches Err(e2) && e2 == e,
            },
        },
{
    let root = wootility_root(direct, entries, suffix)?;
    profile_cache_from_root(&root)
}

/// The named onboard profiles in Wootility's persisted state.
pub fn load_profiles_from_leveldb(direct: Option<&[u8]>, entries: &Vec<(Vec<u8>, Vec<u8>)>, suffix: &[u8]) -> (r:
    Result<Vec<(u8, String)>, WootilityError>)
    requires
        direct matches Some(d) ==> decodable_len(d@.len() as int),
        forall|i: int| 0 <= i < entries@.len() ==> decodable_len((#[trigger] entries@[i]).1@.len() as int),
    ensures
        match root_spec(
            match direct {
                Some(d) => Some(d@),
                None => None,
            },
            entry_views(entries@),
            suffix@,
        ) {
            Err(e) => r matches Err(e2) && e2 == e,
            Ok(root) => match cache_spec(root) {
                Ok((names, _)) => r matches Ok(v) && pairs_view(v@) == names,
                Err(e) => r matches Err(e2) && e2 == e,
            },
        },
{
    let cache = load_profile_cache_from_leveldb(direct, entries, suffix)?;
    Ok(cache.onboard)
}

} // verus!
