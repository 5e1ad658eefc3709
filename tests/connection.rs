use nes_network::connection::{ConnectionIdentifier, ConnectionIdentifierError, ThisConnectionIdentifier};

#[test]
fn test() {
    assert!(ConnectionIdentifier::from_str("tcp://localhost:8080").is_err());
    assert!(ConnectionIdentifier::from_str("localhost").is_err());
    assert!(ConnectionIdentifier::from_str("localhost:ABBB").is_err());
    assert!(ConnectionIdentifier::from_str("yoo:localhost:ABBB").is_err());
    assert!(ConnectionIdentifier::from_str("localhost:8080").is_ok());
    assert!(ConnectionIdentifier::from_str("127.0.0.1:8080").is_ok());
    assert!(ConnectionIdentifier::from_str("google.dot.com:8080").is_ok());
}

#[test]
fn parse_gives_host_and_port() {
    let id = ConnectionIdentifier::from_str("localhost:8080").unwrap();
    assert_eq!(id.host, "localhost");
    assert_eq!(id.port, 8080);
    let v6 = ConnectionIdentifier::from_str("[::1]:9000").unwrap();
    assert_eq!(v6.host, "[::1]");
    assert_eq!(v6.port, 9000);
}

#[test]
fn parse_errors_by_kind() {
    assert!(matches!(ConnectionIdentifier::from_str("localhost"), Err(ConnectionIdentifierError::MissingPort)));
    assert!(matches!(ConnectionIdentifier::from_str("localhost:"), Err(ConnectionIdentifierError::InvalidPort)));
    assert!(matches!(ConnectionIdentifier::from_str("localhost:0"), Err(ConnectionIdentifierError::InvalidPort)));
    assert!(matches!(ConnectionIdentifier::from_str("localhost:65536"), Err(ConnectionIdentifierError::InvalidPort)));
    assert!(matches!(ConnectionIdentifier::from_str("localhost:123456"), Err(ConnectionIdentifierError::InvalidPort)));
    assert!(matches!(ConnectionIdentifier::from_str(":80"), Err(ConnectionIdentifierError::EmptyHost)));
    assert!(matches!(ConnectionIdentifier::from_str("tcp://localhost:8080"), Err(ConnectionIdentifierError::InvalidHost)));
    assert!(matches!(ConnectionIdentifier::from_str("a b:80"), Err(ConnectionIdentifierError::InvalidHost)));
    assert!(matches!(ConnectionIdentifier::from_str("[::1:80"), Err(ConnectionIdentifierError::InvalidHost)));
}

#[test]
fn largest_port_is_accepted() {
    let id = ConnectionIdentifier::from_str("h:65535").unwrap();
    assert_eq!(id.port, 65535);
}

#[test]
fn format_then_parse_round_trips() {
    for text in ["localhost:8080", "127.0.0.1:1", "[::1]:65535", "google.dot.com:8080"] {
        let id = ConnectionIdentifier::from_str(text).unwrap();
        let formatted = id.to_string();
        assert_eq!(formatted, text);
        let again = ConnectionIdentifier::from_str(&formatted).unwrap();
        assert!(again.same_as(&id));
    }
}

#[test]
fn host_is_normalized_by_the_url_parser() {
    let id = ConnectionIdentifier::from_str("[0:0:0:0:0:0:0:1]:80").unwrap();
    assert_eq!(id.host, "[::1]");
    assert_eq!(id.to_string(), "[::1]:80");
}

#[test]
fn this_identifier_converts_for_peers() {
    let this = ThisConnectionIdentifier::from_str("worker-1:9090").unwrap();
    assert_eq!(this.to_string(), "worker-1:9090");
    let peer = this.into_connection();
    assert_eq!(peer.host, "worker-1");
    assert_eq!(peer.port, 9090);
    assert!(ThisConnectionIdentifier::from_str("worker-1").is_err());
}
