use cosmic_widgets::capability::{Capability, CapabilityGrant, CapabilitySet, NETWORK};

#[test]
fn denied_grant_should_reject_capability() {
    let grant = CapabilityGrant::denied("dev.example.Clock");
    assert!(!grant.allows(&Capability::SystemMetrics));
}

#[test]
fn network_grant_should_require_every_declared_host() {
    let grant = CapabilityGrant {
        package_id: "dev.example.Weather".into(),
        granted: CapabilitySet::network(),
        network_hosts: vec!["api.example.com".into()],
    };
    let requested = Capability::Network {
        hosts: vec!["api.example.com".into(), "cdn.example.com".into()],
    };
    assert!(!grant.allows(&requested));
}

#[test]
fn network_grant_should_allow_listed_hosts() {
    let grant = CapabilityGrant {
        package_id: "dev.example.Weather".into(),
        granted: CapabilitySet::from_bits_retain(NETWORK),
        network_hosts: vec!["api.example.com".into(), "cdn.example.com".into()],
    };
    let requested = Capability::Network {
        hosts: vec!["cdn.example.com".into(), "api.example.com".into()],
    };
    assert!(grant.allows(&requested));
    assert!(!grant.allows(&Capability::SystemMetrics));
}

#[test]
fn denied_grant_should_reject_every_capability() {
    let grant = CapabilityGrant::denied("dev.example.Clock");
    let all = [
        Capability::SystemMetrics,
        Capability::MediaControl,
        Capability::Network { hosts: Vec::new() },
        Capability::InstanceStorage,
        Capability::ClipboardRead,
        Capability::ClipboardWrite,
        Capability::OpenUri,
        Capability::SpawnProcess,
    ];
    for capability in &all {
        assert!(!grant.allows(capability));
    }
    assert_eq!(grant.package_id, "dev.example.Clock");
}

#[test]
fn bit_should_map_each_capability_to_its_flag() {
    assert_eq!(Capability::SystemMetrics.bit().bits(), 1);
    assert_eq!(Capability::MediaControl.bit().bits(), 2);
    assert_eq!(Capability::Network { hosts: Vec::new() }.bit().bits(), 4);
    assert_eq!(Capability::InstanceStorage.bit().bits(), 8);
    assert_eq!(Capability::ClipboardRead.bit().bits(), 16);
    assert_eq!(Capability::ClipboardWrite.bit().bits(), 32);
    assert_eq!(Capability::OpenUri.bit().bits(), 64);
    assert_eq!(Capability::SpawnProcess.bit().bits(), 128);
}

#[test]
fn is_dangerous_should_flag_process_and_clipboard_read() {
    assert!(Capability::SpawnProcess.is_dangerous());
    assert!(Capability::ClipboardRead.is_dangerous());
    assert!(!Capability::ClipboardWrite.is_dangerous());
    assert!(!Capability::Network { hosts: Vec::new() }.is_dangerous());
}

#[test]
fn granted_flag_without_network_should_allow_plain_capability() {
    let grant = CapabilityGrant {
        package_id: "dev.example.Monitor".into(),
        granted: CapabilitySet::system_metrics().union(CapabilitySet::open_uri()),
        network_hosts: Vec::new(),
    };
    assert!(grant.allows(&Capability::SystemMetrics));
    assert!(grant.allows(&Capability::OpenUri));
    assert!(!grant.allows(&Capability::MediaControl));
}

#[test]
fn all_should_hold_every_capability_flag() {
    let all = CapabilitySet::all();
    assert_eq!(all.bits(), 255);
    for capability in [
        Capability::SystemMetrics,
        Capability::MediaControl,
        Capability::Network { hosts: Vec::new() },
        Capability::InstanceStorage,
        Capability::ClipboardRead,
        Capability::ClipboardWrite,
        Capability::OpenUri,
        Capability::SpawnProcess,
    ] {
        assert!(all.contains(capability.bit()));
    }
}

#[test]
fn widening_a_grant_should_keep_what_it_allowed() {
    let narrow = CapabilityGrant {
        package_id: "a".to_string(),
        granted: CapabilitySet::network(),
        network_hosts: vec!["example.com".to_string()],
    };
    let wide = CapabilityGrant {
        package_id: "b".to_string(),
        granted: CapabilitySet::network().union(CapabilitySet::open_uri()),
        network_hosts: vec!["other.org".to_string(), "example.com".to_string()],
    };
    let request = Capability::Network { hosts: vec!["example.com".to_string()] };
    assert!(narrow.allows(&request));
    assert!(wide.allows(&request));
    assert!(!narrow.allows(&Capability::OpenUri));
    assert!(wide.allows(&Capability::OpenUri));
}
