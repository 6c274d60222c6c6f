use localshare::cli::{parse_target, validate_subdomain, LocalTarget};

// ── LocalTarget parsing ──────────────────────────────────────────

#[test]
fn port_only() {
    assert_eq!(
        parse_target("3000").unwrap(),
        LocalTarget {
            host: "127.0.0.1".into(),
            port: 3000,
        }
    );
}

#[test]
fn port_only_8080() {
    assert_eq!(
        parse_target("8080").unwrap(),
        LocalTarget {
            host: "127.0.0.1".into(),
            port: 8080,
        }
    );
}

#[test]
fn host_port_ipv4() {
    assert_eq!(
        parse_target("127.0.0.1:8080").unwrap(),
        LocalTarget {
            host: "127.0.0.1".into(),
            port: 8080,
        }
    );
}

#[test]
fn host_port_localhost() {
    assert_eq!(
        parse_target("localhost:5173").unwrap(),
        LocalTarget {
            host: "localhost".into(),
            port: 5173,
        }
    );
}

#[test]
fn host_port_custom_ip() {
    assert_eq!(
        parse_target("192.168.1.50:4000").unwrap(),
        LocalTarget {
            host: "192.168.1.50".into(),
            port: 4000,
        }
    );
}

#[test]
fn port_boundary_min() {
    assert_eq!(
        parse_target("1").unwrap(),
        LocalTarget {
            host: "127.0.0.1".into(),
            port: 1,
        }
    );
}

#[test]
fn port_boundary_max() {
    assert_eq!(
        parse_target("65535").unwrap(),
        LocalTarget {
            host: "127.0.0.1".into(),
            port: 65535,
        }
    );
}

#[test]
fn port_zero_rejected() {
    assert_eq!(
        parse_target("0").unwrap_err(),
        "port must be between 1 and 65535"
    );
}

#[test]
fn port_too_large() {
    assert!(parse_target("99999").is_err());
}

#[test]
fn invalid_port_letters() {
    assert!(parse_target("abc").is_err());
}

#[test]
fn missing_port_after_colon() {
    assert!(parse_target("127.0.0.1:").is_err());
}

#[test]
fn missing_host_before_colon() {
    assert!(parse_target(":3000").is_err());
}

#[test]
fn empty_input() {
    assert!(parse_target("").is_err());
}

#[test]
fn whitespace_trimmed() {
    assert_eq!(
        parse_target("  3000  ").unwrap(),
        LocalTarget {
            host: "127.0.0.1".into(),
            port: 3000,
        }
    );
}

#[test]
fn display_impl() {
    let target = LocalTarget {
        host: "127.0.0.1".into(),
        port: 3000,
    };
    assert_eq!(target.to_display_string(), "127.0.0.1:3000");
}

// ── Subdomain validation ─────────────────────────────────────────

#[test]
fn subdomain_valid_simple() {
    assert_eq!(validate_subdomain("my-preview").unwrap(), "my-preview");
}

#[test]
fn subdomain_valid_alphanumeric() {
    assert_eq!(validate_subdomain("test123").unwrap(), "test123");
}

#[test]
fn subdomain_valid_single_char() {
    assert_eq!(validate_subdomain("a").unwrap(), "a");
}

#[test]
fn subdomain_valid_max_length() {
    let max_len = "a".repeat(63);
    assert_eq!(validate_subdomain(&max_len).unwrap(), max_len);
}

#[test]
fn subdomain_empty_rejected() {
    assert!(validate_subdomain("").is_err());
}

#[test]
fn subdomain_too_long() {
    let long = "a".repeat(64);
    assert!(validate_subdomain(&long).is_err());
}

#[test]
fn subdomain_starts_with_hyphen() {
    assert!(validate_subdomain("-test").is_err());
}

#[test]
fn subdomain_ends_with_hyphen() {
    assert!(validate_subdomain("test-").is_err());
}

#[test]
fn subdomain_underscore_rejected() {
    assert!(validate_subdomain("test_underscore").is_err());
}

#[test]
fn subdomain_space_rejected() {
    assert!(validate_subdomain("test space").is_err());
}

#[test]
fn subdomain_dot_rejected() {
    assert!(validate_subdomain("test.dot").is_err());
}

// ── Error messages of the target parser (the binary prints them) ──

#[test]
fn invalid_target_port_zero_fails() {
    assert!(parse_target("0")
        .unwrap_err()
        .contains("port must be between 1 and 65535"));
}

#[test]
fn invalid_target_not_a_number_fails() {
    assert!(parse_target("abc")
        .unwrap_err()
        .contains("expected a port number"));
}

#[test]
fn invalid_target_missing_port_fails() {
    assert!(parse_target("127.0.0.1:")
        .unwrap_err()
        .contains("missing port after colon"));
}

#[test]
fn invalid_subdomain_is_rejected_by_parser() {
    for bad in [
        "test_underscore".to_string(),
        "-leading".to_string(),
        "trailing-".to_string(),
        "has space".to_string(),
        String::new(),
        "a".repeat(64),
    ] {
        assert!(validate_subdomain(&bad).unwrap_err().contains("subdomain"));
    }
}

// ── Further cases ──────────────────────────────────────────────────

#[test]
fn target_error_messages_are_exact() {
    assert_eq!(parse_target("").unwrap_err(), "target cannot be empty");
    assert_eq!(
        parse_target("abc").unwrap_err(),
        "invalid target 'abc': expected a port number (1-65535) or host:port"
    );
    assert_eq!(
        parse_target(":3000").unwrap_err(),
        "invalid target ':3000': missing host before port"
    );
    assert_eq!(
        parse_target("127.0.0.1:").unwrap_err(),
        "invalid target '127.0.0.1:': missing port after colon"
    );
    assert_eq!(
        parse_target("host:99999").unwrap_err(),
        "invalid port '99999': must be a number between 1 and 65535"
    );
    assert_eq!(
        parse_target("host:0").unwrap_err(),
        "port must be between 1 and 65535"
    );
}

#[test]
fn target_splits_at_last_colon_and_accepts_plus_sign() {
    assert_eq!(
        parse_target("a:b:81").unwrap(),
        LocalTarget {
            host: "a:b".into(),
            port: 81,
        }
    );
    assert_eq!(parse_target("+443").unwrap().port, 443);
    assert!(parse_target("-443").is_err());
    assert!(parse_target("+").is_err());
    assert_eq!(parse_target("\t 8080\n").unwrap().port, 8080);
}

#[test]
fn subdomain_messages_and_trimming() {
    assert_eq!(validate_subdomain("  ok-1  ").unwrap(), "ok-1");
    assert_eq!(
        validate_subdomain("   ").unwrap_err(),
        "subdomain cannot be empty"
    );
    assert_eq!(
        validate_subdomain("-a").unwrap_err(),
        "subdomain cannot start or end with a hyphen"
    );
    assert_eq!(
        validate_subdomain("a_b").unwrap_err(),
        "subdomain can only contain lowercase alphanumeric characters and hyphens"
    );
    // 32 two-byte characters are 64 bytes: the length rule fires first.
    let wide = "é".repeat(32);
    assert_eq!(
        validate_subdomain(&wide).unwrap_err(),
        "subdomain must be 63 characters or less"
    );
    let short_wide = "é".repeat(31);
    assert_eq!(
        validate_subdomain(&short_wide).unwrap_err(),
        "subdomain can only contain lowercase alphanumeric characters and hyphens"
    );
}

#[test]
fn target_text_parses_back() {
    for (host, port) in [("127.0.0.1", 1u16), ("localhost", 65535), ("::1", 8080), ("my-box", 443)] {
        let t = LocalTarget {
            host: host.into(),
            port,
        };
        assert_eq!(parse_target(&t.to_display_string()).unwrap(), t);
    }
}
