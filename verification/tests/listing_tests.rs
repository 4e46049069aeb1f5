use std::collections::BTreeMap;

use wooting_host_profile::config::{default_config, HostOs, NameError};
use wooting_host_profile::profiles::{
    default_selection, discover_linked_profile_count, discover_profiles, keyboard_profile_entry,
    mark_assigned, profile_info, profile_listed, ProfileInfo,
};
use wooting_host_profile::text::{wide, xml_escape};
use wooting_host_profile::wootility::{
    decode_chromium_string, load_profile_cache_from_leveldb, load_profiles_from_leveldb,
    profile_cache_from_root, wootility_root, ChromiumStringError, WootilityError,
};

fn pairs(items: &[(u8, &str)]) -> Vec<(u8, String)> {
    items.iter().map(|(i, n)| (*i, (*n).to_owned())).collect()
}

#[test]
fn marks_active_and_assigned_profiles() {
    let info = profile_info(pairs(&[(1, "Typing Profile"), (2, "mac profile")]), Some(2), Some(1));
    assert_eq!(info.len(), 2);
    assert!(!info[0].active && info[0].assigned);
    assert!(info[1].active && !info[1].assigned);
    let remarked = mark_assigned(info, Some(2));
    assert!(!remarked[0].assigned && remarked[1].assigned);
    assert_eq!(remarked[1].name, "mac profile");
}

#[test]
fn keyboard_metadata_entries_are_numbered_and_checked() {
    assert_eq!(keyboard_profile_entry(0, None), Ok(None));
    assert_eq!(keyboard_profile_entry(1, Some("Game".to_owned())), Ok(Some((2, "Game".to_owned()))));
    assert_eq!(keyboard_profile_entry(3, Some(String::new())), Err(NameError::Empty));
}

#[test]
fn prefers_keyboard_names_and_caches_them() {
    let mut config = default_config();
    config.profiles.windows = Some(2);
    let browser = vec![pairs(&[(1, "Browser")])];
    let info = discover_profiles(
        Some(pairs(&[(1, "Typing Profile"), (2, "mac profile")])),
        &browser,
        &mut config,
        Some(1),
        HostOs::Windows,
    );
    assert_eq!(info.iter().map(|p| p.name.as_str()).collect::<Vec<_>>(), ["Typing Profile", "mac profile"]);
    assert!(info[0].active && info[1].assigned);
    assert_eq!(config.profile_names.get(&2).map(String::as_str), Some("mac profile"));
}

#[test]
fn falls_back_to_browser_then_cache_then_generic_labels() {
    let mut config = default_config();
    let browser = vec![Vec::new(), pairs(&[(3, "From Wootility")])];
    let info = discover_profiles(None, &browser, &mut config, None, HostOs::MacOs);
    assert_eq!(info.len(), 1);
    assert_eq!(info[0].index, 3);
    assert_eq!(config.profile_names.get(&3).map(String::as_str), Some("From Wootility"));

    let info = discover_profiles(None, &Vec::new(), &mut config, Some(3), HostOs::MacOs);
    assert_eq!(info.len(), 1);
    assert_eq!(info[0].name, "From Wootility");
    assert!(info[0].active);

    let mut fresh = default_config();
    let info = discover_profiles(None, &vec![Vec::new()], &mut fresh, None, HostOs::Windows);
    let names: Vec<_> = info.iter().map(|p| (p.index, p.name.clone())).collect();
    assert_eq!(
        names,
        vec![
            (1, "Profile 1".to_owned()),
            (2, "Profile 2".to_owned()),
            (3, "Profile 3".to_owned()),
            (4, "Profile 4".to_owned()),
        ]
    );
    assert!(fresh.profile_names.is_empty());
}

#[test]
fn cached_names_are_listed_in_profile_order() {
    let mut config = default_config();
    let mut names = BTreeMap::new();
    names.insert(4, "Four".to_owned());
    names.insert(1, "One".to_owned());
    config.profile_names = names;
    let info = discover_profiles(None, &Vec::new(), &mut config, None, HostOs::Windows);
    assert_eq!(info.iter().map(|p| p.index).collect::<Vec<_>>(), [1, 4]);
}

#[test]
fn first_reported_linked_count_wins() {
    assert_eq!(discover_linked_profile_count(&[None, Some(3), Some(5)]), Some(3));
    assert_eq!(discover_linked_profile_count(&[None, None]), None);
}

fn info(index: u8, active: bool) -> ProfileInfo {
    ProfileInfo { index, name: format!("P{index}"), active, assigned: false }
}

#[test]
fn preselects_assigned_then_active_then_first() {
    let listed = vec![info(1, false), info(3, true), info(4, true)];
    assert_eq!(default_selection(&listed, Some(4)), 4);
    assert_eq!(default_selection(&listed, None), 3);
    assert_eq!(default_selection(&vec![info(2, false)], None), 2);
    assert!(profile_listed(&listed, 3));
    assert!(!profile_listed(&listed, 2));
}

#[test]
fn escapes_plist_text_and_encodes_wide_strings() {
    assert_eq!(xml_escape("a&b<c>\"d'"), "a&amp;b&lt;c&gt;&quot;d&apos;");
    assert_eq!(xml_escape("/Users/me/config.toml"), "/Users/me/config.toml");
    assert_eq!(wide("P1"), vec![0x50, 0x31, 0]);
    assert_eq!(wide("\u{1F600}é"), vec![0xD83D, 0xDE00, 0xE9, 0]);
}

fn latin1(text: &str) -> Vec<u8> {
    let mut bytes = vec![1u8];
    bytes.extend_from_slice(text.as_bytes());
    bytes
}

const SUFFIX: &[u8] = b"persist:root";

fn state_json() -> String {
    let devices = r#"{"activeDeviceId":"kb1"}"#;
    let profiles = r#"{"devices":{"kb1":{"onboard":[{"details":{"name":"Typing Profile"}},{"details":{}},{"details":{"name":"mac profile"}},{"details":{"name":"Four"}},{"details":{"name":"Five"}}],"linked":[1,2]}}}"#;
    state_text(devices, profiles)
}

fn state_text(devices: &str, profiles: &str) -> String {
    let mut map = serde_json::Map::new();
    map.insert("devices".to_owned(), serde_json::Value::String(devices.to_owned()));
    map.insert("profiles".to_owned(), serde_json::Value::String(profiles.to_owned()));
    serde_json::Value::Object(map).to_string()
}

#[test]
fn decodes_chromium_strings() {
    assert_eq!(decode_chromium_string(&latin1("caf\u{e9}")).unwrap(), "caf\u{c3}\u{a9}");
    assert_eq!(decode_chromium_string(&[1, 0xE9]).unwrap(), "\u{e9}");
    assert_eq!(decode_chromium_string(&[0, b'h', 0, b'i', 0]).unwrap(), "hi");
    assert_eq!(decode_chromium_string(&[]), Err(ChromiumStringError::Empty));
    assert_eq!(decode_chromium_string(&[7, 1]), Err(ChromiumStringError::UnsupportedPrefix(7)));
}

#[test]
fn reads_onboard_names_from_wootility_state() {
    let value = latin1(&state_json());
    let cache = load_profile_cache_from_leveldb(Some(&value), &Vec::new(), SUFFIX).unwrap();
    assert_eq!(
        cache.onboard,
        vec![(1, "Typing Profile".to_owned()), (3, "mac profile".to_owned()), (4, "Four".to_owned())]
    );
    assert_eq!(cache.linked_count, Some(2));
    assert_eq!(
        load_profiles_from_leveldb(Some(&value), &Vec::new(), SUFFIX).unwrap().len(),
        3
    );
}

#[test]
fn searches_entries_when_the_direct_key_is_absent() {
    let entries = vec![
        (b"other".to_vec(), latin1(&state_json())),
        (b"x persist:root".to_vec(), vec![9, 9]),
        (b"y persist:root".to_vec(), latin1("{\"devices\":\"{}\"}")),
        (b"z persist:root".to_vec(), latin1(&state_json())),
    ];
    let root = wootility_root(None, &entries, SUFFIX).unwrap();
    assert_eq!(profile_cache_from_root(&root).unwrap().onboard.len(), 3);
    assert_eq!(
        wootility_root(None, &entries[..3].to_vec(), SUFFIX).err(),
        Some(WootilityError::NotPresent)
    );
}

#[test]
fn reports_missing_wootility_state() {
    let bad = latin1("not json");
    assert_eq!(
        load_profile_cache_from_leveldb(Some(&bad), &Vec::new(), SUFFIX).err(),
        Some(WootilityError::MalformedJson)
    );
    let no_devices = latin1("{\"profiles\":\"{}\"}");
    assert_eq!(
        load_profile_cache_from_leveldb(Some(&no_devices), &Vec::new(), SUFFIX).err(),
        Some(WootilityError::MissingDevices)
    );
    let no_active = latin1(&state_text("{}", "{}"));
    assert_eq!(
        load_profile_cache_from_leveldb(Some(&no_active), &Vec::new(), SUFFIX).err(),
        Some(WootilityError::NoActiveDevice)
    );
    let no_record = latin1(&state_text(r#"{"activeDeviceId":"kb9"}"#, r#"{"devices":{}}"#));
    assert_eq!(
        load_profile_cache_from_leveldb(Some(&no_record), &Vec::new(), SUFFIX).err(),
        Some(WootilityError::NoDeviceProfiles)
    );
    let bad_name = latin1(&state_text(
        r#"{"activeDeviceId":"kb1"}"#,
        r#"{"devices":{"kb1":{"onboard":[{"details":{"name":""}}]}}}"#,
    ));
    assert_eq!(
        load_profile_cache_from_leveldb(Some(&bad_name), &Vec::new(), SUFFIX).err(),
        Some(WootilityError::InvalidName(NameError::Empty))
    );
    let no_onboard = latin1(&state_text(
        r#"{"activeDeviceId":"kb1"}"#,
        r#"{"devices":{"kb1":{"linked":[]}}}"#,
    ));
    assert_eq!(
        load_profile_cache_from_leveldb(Some(&no_onboard), &Vec::new(), SUFFIX).err(),
        Some(WootilityError::NoOnboardProfiles)
    );
}
