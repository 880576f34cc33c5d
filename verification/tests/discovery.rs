use syncplay::net::discovery::{
    add_sender, endpoint, host_name, manual_sender, remove_senders, resolved_sender,
    sender_properties,
};
use syncplay::state::shared::{DiscoveredSender, AUDIO_PORT, CONTROL_PORT, MDNS_SERVICE_TYPE};

fn sender(name: &str, host: &str, port: u16) -> DiscoveredSender {
    DiscoveredSender {
        name: name.to_string(),
        host: host.to_string(),
        port,
        sample_rate: 48000,
        channels: 2,
    }
}

fn names(known: &[DiscoveredSender]) -> Vec<&str> {
    known.iter().map(|s| s.name.as_str()).collect()
}

#[test]
fn host_name_is_one_label() {
    assert_eq!(host_name("192.9.200.136"), "192-9-200-136.local.");
    assert_eq!(host_name("fe80::1"), "fe80--1.local.");
    assert_eq!(host_name(""), ".local.");
}

#[test]
fn endpoint_is_host_and_port() {
    assert_eq!(endpoint("10.0.0.7", CONTROL_PORT), "10.0.0.7:12346");
    assert_eq!(endpoint("", 0), ":0");
    assert_eq!(endpoint("h", 65535), "h:65535");
}

#[test]
fn advertised_properties() {
    let properties = sender_properties(44100, 6);
    let pairs: Vec<(&str, &str)> =
        properties.iter().map(|p| (p.key.as_str(), p.value.as_str())).collect();
    assert_eq!(pairs, vec![("sample_rate", "44100"), ("channels", "6"), ("version", "1")]);
    assert_eq!(MDNS_SERVICE_TYPE, "_syncplay._udp.local.");
}

#[test]
fn advertised_stream_is_read_back() {
    let properties = sender_properties(4294967295, 65535);
    let found = resolved_sender(
        "n".to_string(),
        None,
        "h".to_string(),
        1,
        Some(properties[0].value.clone().into_bytes()),
        Some(properties[1].value.clone().into_bytes()),
    );
    assert_eq!(found.sample_rate, 4294967295);
    assert_eq!(found.channels, 65535);
}

#[test]
fn resolved_sender_has_its_address() {
    let found = resolved_sender(
        "SyncPlay Sender._syncplay._udp.local.".to_string(),
        Some("10.0.0.9".to_string()),
        "10-0-0-9.local.".to_string(),
        12345,
        Some(b"96000".to_vec()),
        Some(b"+1".to_vec()),
    );
    assert_eq!(found.name, "SyncPlay Sender._syncplay._udp.local.");
    assert_eq!(found.host, "10.0.0.9");
    assert_eq!(found.port, 12345);
    assert_eq!(found.sample_rate, 96000);
    assert_eq!(found.channels, 1);
}

#[test]
fn resolved_sender_without_address_has_its_host_name() {
    let found =
        resolved_sender("n".to_string(), None, "mac.local.".to_string(), 5, None, None);
    assert_eq!(found.host, "mac.local.");
    assert_eq!(found.sample_rate, 48000);
    assert_eq!(found.channels, 2);
}

#[test]
fn unreadable_properties_fall_back() {
    for bad in ["", "+", "-1", "48 000", "4294967296", "x", "1.5", "++1"] {
        let found = resolved_sender(
            "n".to_string(),
            None,
            "h".to_string(),
            5,
            Some(bad.as_bytes().to_vec()),
            Some(bad.as_bytes().to_vec()),
        );
        assert_eq!(found.sample_rate, 48000, "{bad}");
        assert_eq!(found.channels, 2, "{bad}");
    }
    let wide = resolved_sender(
        "n".to_string(),
        None,
        "h".to_string(),
        5,
        Some(vec![0xff, 0xfe]),
        Some(b"65536".to_vec()),
    );
    assert_eq!((wide.sample_rate, wide.channels), (48000, 2));
}

#[test]
fn manual_sender_skips_discovery() {
    let found = manual_sender("10.1.2.3".to_string());
    assert_eq!(found.name, "manual@10.1.2.3");
    assert_eq!(found.host, "10.1.2.3");
    assert_eq!(found.port, AUDIO_PORT);
    assert_eq!(found.sample_rate, 48000);
    assert_eq!(found.channels, 2);
}

#[test]
fn sender_is_known_once() {
    let mut known = Vec::new();
    assert!(add_sender(&mut known, sender("a", "h", 1)));
    assert!(!add_sender(&mut known, sender("b", "h", 1)));
    assert!(add_sender(&mut known, sender("c", "h", 2)));
    assert!(add_sender(&mut known, sender("d", "g", 1)));
    assert_eq!(names(&known), vec!["a", "c", "d"]);
}

#[test]
fn removed_service_takes_its_senders() {
    let mut known = vec![
        sender("one._syncplay", "a", 1),
        sender("two._syncplay", "b", 1),
        sender("one", "c", 1),
        sender("three", "d", 1),
    ];
    remove_senders(&mut known, "one._syncplay._udp.local.");
    assert_eq!(names(&known), vec!["two._syncplay", "three"]);
    remove_senders(&mut known, "nothing");
    assert_eq!(known.len(), 2);
}

#[test]
fn nameless_sender_goes_with_any_service() {
    let mut known = vec![sender("", "a", 1), sender("x", "b", 1)];
    remove_senders(&mut known, "other");
    assert_eq!(names(&known), vec!["x"]);
}
