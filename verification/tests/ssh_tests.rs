use stun::config::{Config, ForwardingMode, RemoteConfig};
use stun::forwarding::ForwardingSpec;
use stun::ssh::SshClient;

fn create_test_config() -> Config {
    Config {
        mode: ForwardingMode::Local,
        remote: RemoteConfig {
            host: "example.com".to_string(),
            port: 22,
            user: "testuser".to_string(),
            key: Some("/path/to/key".to_string()),
        },
        forwarding_list: vec![],
        timeout: Some(5),
        remote_probes: None,
        backoff_base_secs: None,
        backoff_max_secs: None,
    }
}

#[test]
fn test_build_command_string() {
    let config = create_test_config();
    let client = SshClient::new(config);
    let spec = ForwardingSpec::parse("8080:127.0.0.1:9000").unwrap();

    let cmd = client.build_command_string(&spec);

    assert!(cmd.contains("ssh"));
    assert!(cmd.contains("-L"));
    assert!(cmd.contains("8080:127.0.0.1:9000"));
    assert!(cmd.contains("-i /path/to/key"));
    assert!(cmd.contains("testuser@example.com"));
}

#[test]
fn test_build_command_string_with_port() {
    let mut config = create_test_config();
    config.remote.port = 2222;
    config.mode = ForwardingMode::Remote;

    let client = SshClient::new(config);
    let spec = ForwardingSpec::parse("0.0.0.0:8080:192.168.1.10:9000").unwrap();

    let cmd = client.build_command_string(&spec);

    assert!(cmd.contains("-R"));
    assert!(cmd.contains("-p 2222"));
    assert!(cmd.contains("0.0.0.0:8080:192.168.1.10:9000"));
}

#[test]
fn test_build_forwarding_args() {
    let config = create_test_config();
    let client = SshClient::new(config);
    let spec = ForwardingSpec::parse("8080:127.0.0.1:9000").unwrap();

    let args = client.build_forwarding_args(&spec, true);
    assert_eq!(
        args,
        vec![
            "-o",
            "ServerAliveInterval=30",
            "-o",
            "StrictHostKeyChecking=no",
            "-o",
            "ExitOnForwardFailure=yes",
            "-L",
            "8080:127.0.0.1:9000",
            "-i",
            "/path/to/key",
            "testuser@example.com",
        ]
    );

    // a missing key file omits the identity flag
    let args = client.build_forwarding_args(&spec, false);
    assert!(!args.contains(&"-i".to_string()));
    assert_eq!(args.len(), 9);
}

#[test]
fn test_build_remote_probe_args() {
    let mut config = create_test_config();
    config.remote.key = None;
    config.timeout = Some(3);
    let client = SshClient::new(config);

    let args = client.build_remote_probe_args(false, "db.internal", 5432);
    assert_eq!(args.len(), 8);
    assert_eq!(args[6], "testuser@example.com");
    assert_eq!(
        args[7],
        "sh -lc 'nc -z -w 3 db.internal 5432 >/dev/null 2>&1 || \
         (bash -lc \"echo > /dev/tcp/db.internal/5432\")'"
    );
}

#[test]
fn test_remote_probe_target() {
    let mut config = create_test_config();
    config.mode = ForwardingMode::Remote;
    config.forwarding_list = vec!["8080:127.0.0.1:8080".to_string()];
    config.remote_probes = Some(vec![(
        "8080:127.0.0.1:8080".to_string(),
        "db.internal:5432".to_string(),
    )]);
    let client = SshClient::new(config);

    let configured = ForwardingSpec::parse("8080:127.0.0.1:8080").unwrap();
    assert_eq!(
        client.remote_probe_target(&configured),
        Some(("db.internal".to_string(), 5432))
    );

    let unconfigured = ForwardingSpec::parse("9000:127.0.0.1:9000").unwrap();
    assert_eq!(client.remote_probe_target(&unconfigured), None);
}

#[test]
fn test_is_local_mode() {
    let config = create_test_config();
    let client = SshClient::new(config);
    assert!(client.is_local_mode());

    let mut config = create_test_config();
    config.mode = ForwardingMode::Remote;
    let client = SshClient::new(config);
    assert!(!client.is_local_mode());
}
