use port_watch::platform::shared::{
    extract_script_path, parse_address_port, process_names_match, script_path_from_lowered, tokenize,
};

#[test]
fn parse_ipv4() {
    let binding = parse_address_port("127.0.0.1:8090", "TCP").unwrap();
    assert_eq!(binding.address, "127.0.0.1");
    assert_eq!(binding.port, 8090);
}

#[test]
fn parse_wildcard() {
    let binding = parse_address_port("*:8090", "TCP").unwrap();
    assert_eq!(binding.address, "*");
    assert_eq!(binding.port, 8090);
}

#[test]
fn parse_ipv6_bracketed() {
    let binding = parse_address_port("[::1]:8080", "TCP").unwrap();
    assert_eq!(binding.address, "[::1]");
    assert_eq!(binding.port, 8080);
}

#[test]
fn parse_ipv6_with_zone() {
    let binding = parse_address_port("[fe80::1%en0]:5353", "UDP").unwrap();
    assert_eq!(binding.address, "[fe80::1%en0]");
    assert_eq!(binding.port, 5353);
}

#[test]
fn skips_connected_udp_socket() {
    assert!(parse_address_port("192.168.1.10:54321->8.8.8.8:53", "UDP").is_none());
}

#[test]
fn extract_script_path_quoted_interpreter_with_spaces() {
    let cmd = "\"C:\\Program Files\\nodejs\\node.exe\" C:\\app\\server.js";
    assert_eq!(
        extract_script_path(cmd, "node"),
        Some("C:\\app\\server.js".to_string())
    );
}

#[test]
fn extract_script_path_unix_interpreter() {
    let cmd = "node /srv/app/server.js --port 3000";
    assert_eq!(
        extract_script_path(cmd, "node"),
        Some("/srv/app/server.js".to_string())
    );
}

#[test]
fn extract_script_path_ignores_non_interpreters() {
    assert_eq!(extract_script_path("/usr/sbin/nginx -g daemon", "nginx"), None);
}

#[test]
fn process_names_match_variants() {
    assert!(process_names_match("node", "node"));
    assert!(process_names_match("Node", "node"));
    assert!(process_names_match("/usr/local/bin/node", "node"));
    assert!(process_names_match("node.exe", "node"));
    assert!(process_names_match("com.docker.backe", "com.docker.backend"));
    assert!(!process_names_match("nginx", "node"));
    assert!(!process_names_match("node", "nodemon"));
    assert!(!process_names_match("", "node"));
    assert!(!process_names_match("com.example.service", "com.example.service-worker"));
}

#[test]
fn parse_network_name_ipv4() {
    let binding = parse_address_port("127.0.0.1:8090", "TCP").unwrap();
    assert_eq!(binding.address, "127.0.0.1");
    assert_eq!(binding.port, 8090);
    assert_eq!(binding.protocol, "TCP");
}

#[test]
fn parse_network_name_wildcard() {
    let binding = parse_address_port("*:8090", "TCP").unwrap();
    assert_eq!(binding.address, "*");
    assert_eq!(binding.port, 8090);
}

#[test]
fn extract_script_from_python_command() {
    let cmd = "Python /Users/ginpachi/proj/.server/hosted_web_server.py";
    let path = extract_script_path(cmd, "Python");
    assert_eq!(
        path,
        Some("/Users/ginpachi/proj/.server/hosted_web_server.py".to_string())
    );
}

// --- further cases ---

#[test]
fn parse_address_rejects_empty_and_bad_ports() {
    assert!(parse_address_port("", "TCP").is_none());
    assert!(parse_address_port("127.0.0.1:http", "TCP").is_none());
    assert!(parse_address_port("127.0.0.1:70000", "TCP").is_none());
    assert!(parse_address_port("noport", "TCP").is_none());
}

#[test]
fn tokenize_keeps_quoted_spaces() {
    let tokens = tokenize("\"C:\\Program Files\\node.exe\" server.js 'a b'");
    assert_eq!(
        tokens,
        vec![
            "C:\\Program Files\\node.exe".to_string(),
            "server.js".to_string(),
            "a b".to_string()
        ]
    );
}

#[test]
fn names_match_is_symmetric_on_examples() {
    assert_eq!(
        process_names_match("node.exe", "NODE"),
        process_names_match("NODE", "node.exe")
    );
    assert!(process_names_match("NODE", "node.exe"));
}

#[test]
fn interpreter_names_ignore_case() {
    // The process name is lowercased before it is compared with the
    // interpreter names.
    assert_eq!(
        extract_script_path("node /srv/a.js", "NODE"),
        Some("/srv/a.js".to_string())
    );
    // Names are compared ignoring ASCII case only.
    assert!(process_names_match("PYTHON3", "python3"));
    assert!(!process_names_match("Ünicode", "ünicode"));
}

#[test]
fn script_path_from_lowered_name() {
    assert_eq!(
        script_path_from_lowered("node /a/b.js --x", "node"),
        Some("/a/b.js".to_string())
    );
    assert_eq!(script_path_from_lowered("node /a/b.js", "NODE"), None);
    assert_eq!(script_path_from_lowered("", "node"), None);
}
