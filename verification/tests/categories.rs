use svcdeck::categories::{categorize, category_label, matches_any};

#[test]
fn test_categorize_network() {
    assert_eq!(categorize("NetworkManager.service"), "Network");
    assert_eq!(categorize("wpa_supplicant.service"), "Network");
}

#[test]
fn test_categorize_audio() {
    assert_eq!(categorize("pipewire.service"), "Audio");
    assert_eq!(categorize("wireplumber.service"), "Audio");
}

#[test]
fn test_categorize_systemd_core() {
    assert_eq!(categorize("systemd-journald.service"), "Systemd Core");
    assert_eq!(categorize("systemd-logind.service"), "Systemd Core");
}

#[test]
fn test_categorize_systemd_network_overrides_core() {
    assert_eq!(categorize("systemd-networkd.service"), "Network");
    assert_eq!(categorize("systemd-resolved.service"), "Network");
}

#[test]
fn test_categorize_unknown() {
    assert_eq!(categorize("my-custom-thing.service"), "Other");
}

#[test]
fn test_categorize_remaining_labels() {
    assert_eq!(categorize("bluetooth.service"), "Bluetooth");
    assert_eq!(categorize("docker.service"), "Containers");
    assert_eq!(categorize("sddm.service"), "Display");
    assert_eq!(categorize("cups.service"), "Printing");
    assert_eq!(categorize("sshd.service"), "Security");
}

#[test]
fn test_categorize_prefix_match_without_suffix() {
    // The `.service` suffix is optional and prefixes are enough.
    assert_eq!(categorize("pipewire-pulse.service"), "Audio");
    assert_eq!(categorize("docker"), "Containers");
}

#[test]
fn test_category_label_order() {
    let order = [
        "Audio",
        "Bluetooth",
        "Containers",
        "Display",
        "Network",
        "Printing",
        "Security",
        "Systemd Core",
        "Other",
    ];
    for (i, want) in order.iter().enumerate() {
        assert_eq!(category_label(i), *want);
    }
}

#[test]
fn test_matches_any() {
    assert!(matches_any("dockerd", &["podman", "docker"]));
    assert!(!matches_any("docker", &["podman", "dockerd"]));
    assert!(!matches_any("anything", &[]));
}
