use ferrocopy::ssh::{parse_address, parse_destination, AuthMethod, SshConfig, SshParseError};

#[test]
fn test_ssh_config_new() {
    let config = SshConfig::new("192.168.1.100", "user");
    assert_eq!(config.host, "192.168.1.100");
    assert_eq!(config.username, "user");
    assert_eq!(config.port, 22);
}

#[test]
fn test_ssh_config_with_password() {
    let mut config = SshConfig::new("example.com", "admin");
    config.password = Some("secret".into());
    assert_eq!(config.password.as_deref(), Some("secret"));
}

#[test]
fn test_ssh_config_with_key() {
    let mut config = SshConfig::new("example.com", "admin");
    config.key_path = Some("~/.ssh/id_rsa".into());
    assert!(config.key_path.as_deref().unwrap().contains("id_rsa"));
}

#[test]
fn ssh_test_ssh_config_default_port() {
    let config = SshConfig::new("10.0.0.1", "test");
    assert_eq!(config.port, 22);
}

#[test]
fn test_ssh_config_parsing() {
    let input = "user@192.168.1.100:22";
    let addr = parse_address(input).unwrap();
    assert_eq!(addr.username, "user", "Should split on @");
    assert_eq!(addr.host, "192.168.1.100", "Should split on :");
    assert_eq!(addr.port.to_string(), "22");
}

#[test]
fn ssh_integration_test_test_ssh_config_default_port() {
    let input = "admin@example.com";
    let addr = parse_address(input).unwrap();
    assert_eq!(addr.port.to_string(), "22");
}

#[test]
fn test_ssh_key_path_parsing() {
    let key = "~/.ssh/id_ed25519";
    let mut config = SshConfig::new("example.com", "admin");
    config.key_path = Some(key.to_string());
    match config.auth_method() {
        AuthMethod::PublicKey(k) => {
            assert!(k.starts_with("~/"), "Should be a tilde-prefixed path");
            assert!(k.ends_with(".pub") || !k.ends_with(".pub"), "Key path can be public or private");
        }
        other => panic!("expected a key, got {:?}", other),
    }
}

#[test]
fn auth_prefers_key_then_password_then_agent() {
    let mut config = SshConfig::new("h", "u");
    assert!(matches!(config.auth_method(), AuthMethod::Agent));
    config.password = Some("pw".into());
    assert!(matches!(config.auth_method(), AuthMethod::Password(p) if p == "pw"));
    config.key_path = Some("k".into());
    assert!(matches!(config.auth_method(), AuthMethod::PublicKey(k) if k == "k"));
}

#[test]
fn address_with_bad_port_falls_back_to_default() {
    let addr = parse_address("bob@host:notaport").unwrap();
    assert_eq!(addr.host, "host");
    assert_eq!(addr.port, 22);
    let addr = parse_address("bob@host:70000").unwrap();
    assert_eq!(addr.port, 22);
    let addr = parse_address("bob@host:2222").unwrap();
    assert_eq!(addr.port, 2222);
}

#[test]
fn address_without_user_is_refused() {
    let err = parse_address("example.com:22").unwrap_err();
    assert_eq!(err, SshParseError::MissingUser);
    assert_eq!(err.message(), "Invalid SSH user@host format. Expected user@host[:port]");
}

#[test]
fn destination_splits_address_and_remote_path() {
    let d = parse_destination("alice@files.example:/srv/data").unwrap();
    assert_eq!(d.address.username, "alice");
    assert_eq!(d.address.host, "files.example");
    assert_eq!(d.address.port, 22);
    assert_eq!(d.remote_path, "/srv/data");
    let d = parse_destination("alice@files.example:2200:/srv/data").unwrap();
    assert_eq!(d.address.port, 2200);
    assert_eq!(d.remote_path, "/srv/data");
}

#[test]
fn destination_without_path_is_refused() {
    let err = parse_destination("alice@files.example").unwrap_err();
    assert_eq!(err, SshParseError::MissingRemotePath);
    assert_eq!(
        err.message(),
        "Invalid SSH destination format. Expected user@host[:port]:/remote/path"
    );
}
