use wooting_host_profile::config::validate_human_profile;
use wooting_host_profile::protocol::{
    command_report, parse_heartbeat, parse_legacy_profile, parse_legacy_state,
    parse_profile_metadata, read_current_state_with, should_enforce, validate_response_command,
    validated_response_length, HeartbeatError, KeyboardState, MetadataError, ResponseError,
    StateQueryError, WootDevOwnership, GET_CURRENT_KEYBOARD_PROFILE_INDEX, GET_PROFILE_METADATA,
    HEARTBEAT,
};

#[test]
fn accepts_the_four_onboard_profiles() {
    for profile in 1..=4 {
        assert!(validate_human_profile(profile).is_ok());
    }
}

#[test]
fn rejects_profiles_outside_the_onboard_range() {
    assert!(validate_human_profile(0).is_err());
    assert!(validate_human_profile(5).is_err());
}

#[test]
fn validates_response_command_envelopes() {
    assert!(validate_response_command(&[0, 0, HEARTBEAT], HEARTBEAT, false).is_ok());
    assert!(validate_response_command(&[0, 0, 0, HEARTBEAT], HEARTBEAT, true).is_ok());
    assert!(validate_response_command(&[0, 0, GET_PROFILE_METADATA], HEARTBEAT, false).is_err());
    assert!(validate_response_command(&[0, 0], HEARTBEAT, false).is_err());
}

#[test]
fn accepts_nonempty_hid_reports_up_to_the_buffer_size() {
    assert_eq!(validated_response_length(32, 2_046).unwrap(), 32);
    assert_eq!(validated_response_length(2_046, 2_046).unwrap(), 2_046);
    assert!(validated_response_length(0, 2_046).is_err());
    assert!(validated_response_length(-1, 2_046).is_err());
    assert!(validated_response_length(2_047, 2_046).is_err());
}

#[test]
fn builds_wooting_command_reports_for_each_transport() {
    assert_eq!(command_report(true, HEARTBEAT, 2), [1, 0xD1, 0xDA, HEARTBEAT, 2, 0, 0, 0]);
    assert_eq!(
        command_report(false, GET_CURRENT_KEYBOARD_PROFILE_INDEX, 1),
        [0, 0xD0, 0xDA, GET_CURRENT_KEYBOARD_PROFILE_INDEX, 1, 0, 0, 0]
    );
}

#[test]
fn parses_only_valid_legacy_profile_indexes() {
    assert_eq!(parse_legacy_profile(&[0, 1], 1).unwrap(), 1);
    assert!(parse_legacy_profile(&[0, 8], 1).is_err());
    assert!(parse_legacy_profile(&[0], 1).is_err());
}

#[test]
fn only_known_inactive_wootdev_state_allows_enforcement() {
    let mut state = KeyboardState { profile: 0, wootdev: WootDevOwnership::Inactive };
    assert!(should_enforce(state, true, true));
    state.wootdev = WootDevOwnership::Active;
    assert!(!should_enforce(state, true, true));
    state.wootdev = WootDevOwnership::Unknown;
    assert!(!should_enforce(state, true, true));
    assert!(!should_enforce(state, false, true));
    assert!(!should_enforce(state, true, false));
}

#[test]
fn falls_back_to_legacy_state_when_heartbeat_fails() {
    let legacy = KeyboardState { profile: 1, wootdev: WootDevOwnership::Unknown };
    let state = read_current_state_with(
        true,
        || Err("heartbeat unavailable".to_owned()),
        || Ok(legacy),
    )
    .unwrap();
    assert_eq!(state.profile, 1);
    assert_eq!(state.wootdev, WootDevOwnership::Unknown);
}

#[test]
fn heartbeat_is_preferred_when_it_answers() {
    let beat = KeyboardState { profile: 2, wootdev: WootDevOwnership::Inactive };
    let state = read_current_state_with(true, || Ok::<_, String>(beat), || Err("unused".to_owned()))
        .unwrap();
    assert_eq!(state, beat);
}

#[test]
fn reports_both_failures_when_heartbeat_and_legacy_fail() {
    let r: Result<KeyboardState, StateQueryError<String>> =
        read_current_state_with(true, || Err("beat".to_owned()), || Err("legacy".to_owned()));
    assert_eq!(
        r,
        Err(StateQueryError::HeartbeatThenLegacy {
            heartbeat: "beat".to_owned(),
            legacy: "legacy".to_owned()
        })
    );
    let r: Result<KeyboardState, StateQueryError<String>> =
        read_current_state_with(false, || Ok(KeyboardState { profile: 0, wootdev: WootDevOwnership::Active }), || Err("legacy".to_owned()));
    assert_eq!(r, Err(StateQueryError::Legacy("legacy".to_owned())));
}

#[test]
fn reports_read_failures_timeouts_and_overruns_distinctly() {
    assert_eq!(validated_response_length(-5, 64), Err(ResponseError::ReadFailed));
    assert_eq!(validated_response_length(0, 64), Err(ResponseError::TimedOut));
    assert_eq!(validated_response_length(65, 64), Err(ResponseError::ExceededBuffer));
    assert_eq!(
        validate_response_command(&[0, 0, 11], HEARTBEAT, false),
        Err(ResponseError::WrongCommand { expected: HEARTBEAT, actual: 11 })
    );
    assert_eq!(
        validate_response_command(&[0, 0, 73], HEARTBEAT, true),
        Err(ResponseError::MissingEnvelope { expected: HEARTBEAT })
    );
}

#[test]
fn decodes_the_documented_heartbeat_bodies() {
    // WootDev inactive: 08 00 10 00 18 00 20 00, with P2 active.
    let inactive = [0, 0, 0, HEARTBEAT, 0, 0x08, 0x01, 0x10, 0x00, 0x18, 0x00, 0x20, 0x00];
    assert_eq!(
        parse_heartbeat(&inactive, true),
        Ok(KeyboardState { profile: 1, wootdev: WootDevOwnership::Inactive })
    );
    // WootDev active: 08 00 10 01 18 00 20 00.
    let active = [0, 0, HEARTBEAT, 0, 0x08, 0x00, 0x10, 0x01, 0x18, 0x00, 0x20, 0x00];
    assert_eq!(
        parse_heartbeat(&active, false),
        Ok(KeyboardState { profile: 0, wootdev: WootDevOwnership::Active })
    );
}

#[test]
fn heartbeat_without_ownership_field_is_unknown() {
    let body = [0, 0, HEARTBEAT, 0, 0x08, 0x03, 0x00, 0x10, 0x01];
    assert_eq!(
        parse_heartbeat(&body, false),
        Ok(KeyboardState { profile: 3, wootdev: WootDevOwnership::Unknown })
    );
}

#[test]
fn rejects_malformed_heartbeats() {
    assert_eq!(parse_heartbeat(&[0, 0, 11, 0], false), Err(HeartbeatError::Envelope(ResponseError::WrongCommand { expected: HEARTBEAT, actual: 11 })));
    assert_eq!(parse_heartbeat(&[0, 0, HEARTBEAT, 0, 0x09, 0x01], false), Err(HeartbeatError::UnsupportedField));
    assert_eq!(parse_heartbeat(&[0, 0, HEARTBEAT, 0, 0x08, 0x81], false), Err(HeartbeatError::Truncated));
    assert_eq!(parse_heartbeat(&[0, 0, HEARTBEAT, 0, 0x08, 0x80, 0x02], false), Err(HeartbeatError::ProfileOverflow));
    assert_eq!(parse_heartbeat(&[0, 0, HEARTBEAT, 0, 0x10, 0x00], false), Err(HeartbeatError::MissingProfile));
    assert_eq!(parse_heartbeat(&[0, 0, HEARTBEAT, 0, 0x08, 0x04], false), Err(HeartbeatError::UnsupportedProfile { profile: 4 }));
    let mut long = vec![0, 0, HEARTBEAT, 0, 0x08];
    long.extend_from_slice(&[0xFF; 10]);
    long.push(0x01);
    assert_eq!(parse_heartbeat(&long, false), Err(HeartbeatError::InvalidVarint));
}

#[test]
fn later_heartbeat_fields_override_earlier_ones() {
    let body = [0, 0, HEARTBEAT, 0, 0x08, 0x00, 0x08, 0x02, 0x28, 0x96, 0x01];
    assert_eq!(
        parse_heartbeat(&body, false),
        Ok(KeyboardState { profile: 2, wootdev: WootDevOwnership::Unknown })
    );
}

#[test]
fn legacy_state_reads_the_profile_after_the_header() {
    // Single report, v2 interface: data at offset 5.
    let buffer = [0, 0, GET_CURRENT_KEYBOARD_PROFILE_INDEX, 0, 0, 2];
    assert_eq!(
        parse_legacy_state(&buffer, false, true),
        Ok(KeyboardState { profile: 2, wootdev: WootDevOwnership::Unknown })
    );
    // Multi report, v2 interface: data at offset 7.
    let buffer = [0, 0, 0, GET_CURRENT_KEYBOARD_PROFILE_INDEX, 0, 0, 0, 3];
    assert_eq!(
        parse_legacy_state(&buffer, true, true),
        Ok(KeyboardState { profile: 3, wootdev: WootDevOwnership::Unknown })
    );
    assert_eq!(
        parse_legacy_state(&[0, 0, GET_CURRENT_KEYBOARD_PROFILE_INDEX, 0], false, false),
        Err(ResponseError::MissingByte { offset: 4 })
    );
}

#[test]
fn legacy_state_never_allows_enforcement() {
    let buffer = [0, 0, GET_CURRENT_KEYBOARD_PROFILE_INDEX, 0, 1];
    let state = parse_legacy_state(&buffer, false, false).unwrap();
    assert_eq!(state.wootdev, WootDevOwnership::Unknown);
    assert!(!should_enforce(state, true, true));
}

#[test]
fn reads_profile_names_from_metadata() {
    // Single report, legacy interface: payload at offset 4.
    let mut buffer = vec![0, 0, GET_PROFILE_METADATA, 0];
    let name = b"Typing Profile";
    buffer.push((name.len() + 2) as u8);
    buffer.push(0);
    buffer.push(0x0A);
    buffer.push(name.len() as u8);
    buffer.extend_from_slice(name);
    assert_eq!(
        parse_profile_metadata(&buffer, false, false),
        Ok(Some("Typing Profile".to_owned()))
    );
    let empty = [0, 0, GET_PROFILE_METADATA, 0, 0, 0];
    assert_eq!(parse_profile_metadata(&empty, false, false), Ok(None));
}

#[test]
fn rejects_malformed_metadata() {
    assert_eq!(
        parse_profile_metadata(&[0, 0, GET_PROFILE_METADATA], false, false),
        Err(MetadataError::NoPayload)
    );
    assert_eq!(
        parse_profile_metadata(&[0, 0, GET_PROFILE_METADATA, 0], false, false),
        Err(MetadataError::MissingLength)
    );
    assert_eq!(
        parse_profile_metadata(&[0, 0, GET_PROFILE_METADATA, 0, 5, 0, 0x0A], false, false),
        Err(MetadataError::Truncated)
    );
    assert_eq!(
        parse_profile_metadata(&[0, 0, GET_PROFILE_METADATA, 0, 2, 0, 0x12, 1], false, false),
        Err(MetadataError::NoName)
    );
    assert_eq!(
        parse_profile_metadata(&[0, 0, GET_PROFILE_METADATA, 0, 1, 0, 0x0A], false, false),
        Err(MetadataError::MissingNameLength)
    );
    assert_eq!(
        parse_profile_metadata(&[0, 0, GET_PROFILE_METADATA, 0, 3, 0, 0x0A, 2, b'a'], false, false),
        Err(MetadataError::NameTruncated)
    );
    assert_eq!(
        parse_profile_metadata(&[0, 0, GET_PROFILE_METADATA, 0, 3, 0, 0x0A, 1, 0xFF], false, false),
        Err(MetadataError::NotUtf8)
    );
}
