use wooting_host_profile::ipc::{
    classify_profiles_reply, ipc_address, ipc_port, ipc_token_file_name, ipc_token_from_bytes, generate_ipc_token,
    parse_ipc_request, parse_u8_field, set_reply_accepted, validate_ipc_token, IpcError, IpcRequest,
    ProfilesReplyError, TokenError,
};

#[test]
fn parses_only_authenticated_bounded_ipc_requests() {
    assert_eq!(parse_ipc_request(b"SET 2 secret\n", "secret").unwrap(), IpcRequest::SetProfile(2));
    assert_eq!(parse_ipc_request(b"PROFILES secret\n", "secret").unwrap(), IpcRequest::Profiles);
    assert!(parse_ipc_request(b"SET 2 wrong\n", "secret").is_err());
    assert!(parse_ipc_request(b"SET 2 secret", "secret").is_err());
    assert!(parse_ipc_request(b"SET 5 secret\n", "secret").is_err());
    assert!(parse_ipc_request(&[b'x'; 129], "secret").is_err());
}

#[test]
fn reports_each_ipc_refusal() {
    assert_eq!(parse_ipc_request(&[b'x'; 129], "t"), Err(IpcError::TooLarge));
    assert_eq!(parse_ipc_request(b"", "t"), Err(IpcError::Incomplete));
    assert_eq!(parse_ipc_request(b"SET 1 t\xff\n", "t"), Err(IpcError::NotUtf8));
    assert_eq!(parse_ipc_request(b"SET\n", "t"), Err(IpcError::MissingProfile));
    assert_eq!(parse_ipc_request(b"SET x t\n", "t"), Err(IpcError::InvalidProfile));
    assert_eq!(parse_ipc_request(b"SET 256 t\n", "t"), Err(IpcError::InvalidProfile));
    assert_eq!(parse_ipc_request(b"SET 3\n", "t"), Err(IpcError::MissingToken));
    assert_eq!(parse_ipc_request(b"SET 3 t extra\n", "t"), Err(IpcError::AuthenticationFailed));
    assert_eq!(parse_ipc_request(b"SET 9 wrong\n", "t"), Err(IpcError::AuthenticationFailed));
    assert_eq!(parse_ipc_request(b"SET 9 t\n", "t"), Err(IpcError::ProfileOutOfRange(9)));
    assert_eq!(parse_ipc_request(b"PROFILES\n", "t"), Err(IpcError::MissingToken));
    assert_eq!(parse_ipc_request(b"PROFILES t t\n", "t"), Err(IpcError::AuthenticationFailed));
    assert_eq!(parse_ipc_request(b"HELLO t\n", "t"), Err(IpcError::UnknownCommand));
}

#[test]
fn accepts_crlf_and_signed_profile_numbers() {
    assert_eq!(parse_ipc_request(b"SET +004 t\r\n", "t"), Ok(IpcRequest::SetProfile(4)));
    assert_eq!(parse_ipc_request(b"PROFILES t\n\n", "t"), Ok(IpcRequest::Profiles));
    assert_eq!(parse_ipc_request(b"SET  1 t\n", "t"), Err(IpcError::InvalidProfile));
}

#[test]
fn parses_byte_numbers_like_the_standard_library() {
    for text in ["0", "7", "+12", "255", "000200"] {
        assert_eq!(parse_u8_field(text.as_bytes()), text.parse::<u8>().ok());
    }
    for text in ["", "+", "-1", "256", "1 ", "0x1", "99999"] {
        assert_eq!(parse_u8_field(text.as_bytes()), text.parse::<u8>().ok());
    }
}

#[test]
fn derives_ports_and_token_names() {
    assert_eq!(ipc_port(0), 49_152);
    assert_eq!(ipc_port(16_384 + 5), 49_157);
    assert_eq!(ipc_port(u64::MAX), 49_152 + (u64::MAX % 16_384) as u16);
    assert_eq!(ipc_token_file_name(49_157), "ipc-49157.token");
    assert_eq!(ipc_token_file_name(0), "ipc-0.token");
}

#[test]
fn tokens_are_lowercase_hex_and_read_back() {
    let mut bytes = [0u8; 32];
    for (i, b) in bytes.iter_mut().enumerate() {
        *b = (i as u8) * 8 + 7;
    }
    let token = ipc_token_from_bytes(&bytes);
    assert_eq!(&token[..8], "070f171f");
    assert_eq!(token.len(), 64);
    assert_eq!(validate_ipc_token(&format!("  {token}\n")), Ok(token.clone()));
    let generated = generate_ipc_token().unwrap();
    assert_eq!(generated.len(), 64);
    assert!(generated.bytes().all(|b| b.is_ascii_digit() || (b'a'..=b'f').contains(&b)));
    assert_eq!(validate_ipc_token(&generated), Ok(generated.clone()));
}

#[test]
fn rejects_malformed_token_files() {
    assert_eq!(validate_ipc_token("abc"), Err(TokenError::Invalid));
    assert_eq!(validate_ipc_token(&"g".repeat(64)), Err(TokenError::Invalid));
    assert_eq!(validate_ipc_token(&"AB".repeat(32)), Ok("AB".repeat(32)));
}

#[test]
fn recognises_watcher_answers() {
    assert!(set_reply_accepted("OK\n"));
    assert!(set_reply_accepted(" OK "));
    assert!(!set_reply_accepted("ERR no keyboard\n"));
    assert!(!set_reply_accepted("OKAY"));
    assert_eq!(classify_profiles_reply(b"[]\n"), Ok("[]".to_owned()));
    assert_eq!(
        classify_profiles_reply(b"ERR no Wooting keyboard is connected\n"),
        Err(ProfilesReplyError::Rejected("no Wooting keyboard is connected".to_owned()))
    );
    assert_eq!(classify_profiles_reply(&[b' '; 8_193]), Err(ProfilesReplyError::Oversized));
    assert_eq!(classify_profiles_reply(&[0xC3]), Err(ProfilesReplyError::NotUtf8));
}

#[test]
fn ipc_endpoint_is_stable_and_config_scoped() {
    let first = "C:/one/config.toml";
    let second = "C:/two/config.toml";
    for windows in [false, true] {
        assert_eq!(ipc_address(first, windows), ipc_address(first, windows));
        assert_ne!(ipc_address(first, windows), ipc_address(second, windows));
    }
}

#[test]
fn endpoint_ignores_case_only_on_windows() {
    let upper = "C:/Users/Me/Config.toml";
    let lower = "c:/users/me/config.toml";
    assert_eq!(ipc_address(upper, true), ipc_address(lower, true));
    assert_ne!(ipc_address(upper, false), ipc_address(lower, false));
    for path in [upper, lower] {
        for windows in [false, true] {
            let port = ipc_address(path, windows);
            assert!(port >= 49_152);
        }
    }
}
