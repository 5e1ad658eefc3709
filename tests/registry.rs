use nes_network::connection::{ConnectionIdentifier, ThisConnectionIdentifier};
use nes_network::negotiation::channel_request_reply;
use nes_network::protocol::ControlChannelResponse;
use nes_network::registry::{PendingChannels, RegisteredChannels};

#[test]
fn registered_channel_is_taken_once() {
    let mut r: RegisteredChannels<u32> = RegisteredChannels::new();
    assert!(r.add("X".to_string(), 1).is_ok());
    assert!(r.add("Y".to_string(), 2).is_ok());
    assert_eq!(r.add("X".to_string(), 3), Err(3));
    assert_eq!(r.take(&"X".to_string()), Some(1));
    assert_eq!(r.take(&"X".to_string()), None);
    assert_eq!(r.take(&"Y".to_string()), Some(2));
    // a retried channel can be registered again
    assert!(r.add("X".to_string(), 4).is_ok());
    assert_eq!(r.take(&"X".to_string()), Some(4));
}

#[test]
fn pending_channels_are_keyed_by_peer_and_channel() {
    let a = ConnectionIdentifier::from_str("a:1").unwrap();
    let b = ConnectionIdentifier::from_str("b:1").unwrap();
    let mut p: PendingChannels<&str> = PendingChannels::new();
    assert!(p.add(a.clone(), "ch".to_string(), "for a").is_ok());
    assert!(p.add(b.clone(), "ch".to_string(), "for b").is_ok());
    assert_eq!(p.add(a.clone(), "ch".to_string(), "again"), Err("again"));
    assert_eq!(p.take(&b, &"ch".to_string()), Some("for b"));
    assert_eq!(p.take(&b, &"ch".to_string()), None);
    assert_eq!(p.take(&a, &"other".to_string()), None);
    assert_eq!(p.take(&a, &"ch".to_string()), Some("for a"));
}

#[test]
fn unregistered_channel_is_denied_until_registered() {
    let this = ThisConnectionIdentifier::from_str("recv:7000").unwrap();
    let mut r: RegisteredChannels<u8> = RegisteredChannels::new();
    let found = r.take(&"X".to_string());
    assert!(matches!(channel_request_reply(found.is_some(), &this), ControlChannelResponse::DenyChannelResponse));
    r.add("X".to_string(), 0).unwrap();
    let found = r.take(&"X".to_string());
    assert!(matches!(channel_request_reply(found.is_some(), &this), ControlChannelResponse::OkChannelResponse(_)));
}
