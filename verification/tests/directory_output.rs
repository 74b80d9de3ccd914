use svcdeck::info::{curated_description, get_service_info, is_template_unit, parse_cat_output, parse_show_output};
use svcdeck::listing::services_from_listing;

#[test]
fn test_services_from_listing() {
    let unit_files = "\
NetworkManager.service                     enabled         enabled\n\
dbus-broker.service                        static          -\n\
pipewire.service                           disabled        disabled\n\
getty@.service                             enabled-runtime enabled\n\
houkago.service                            linked          linked\n\
tea-time.service                           linked-runtime  linked\n\
broken-line\n\
sshd.service                               masked          masked\n";
    let active_units = "\
NetworkManager.service loaded active running Network Manager\n\
dbus-broker.service    loaded active running D-Bus Broker\n";

    let services = services_from_listing(unit_files, active_units);
    let got: Vec<(&str, bool, bool)> = services
        .iter()
        .map(|s| (s.name.as_str(), s.enabled, s.active))
        .collect();
    assert_eq!(
        got,
        vec![
            ("NetworkManager.service", true, true),
            ("pipewire.service", false, false),
            ("getty@.service", true, false),
            ("houkago.service", true, false),
            ("tea-time.service", false, false),
        ]
    );
}

#[test]
fn test_services_from_listing_empty() {
    assert!(services_from_listing("", "").is_empty());
}

#[test]
fn test_parse_show_output() {
    let text = "\
Description=Network Manager\n\
ActiveState=active\n\
SubState=running\n\
FragmentPath=/usr/lib/systemd/system/NetworkManager.service\n\
TriggeredBy=\n\
Documentation=man:NetworkManager(8)\n\
Unknown=ignored\n\
not a property line\n";
    let info = parse_show_output(text);
    assert_eq!(info.description, "Network Manager");
    assert_eq!(info.active_state, "active");
    assert_eq!(info.sub_state, "running");
    assert_eq!(
        info.fragment_path,
        "/usr/lib/systemd/system/NetworkManager.service"
    );
    assert_eq!(info.triggered_by, "");
    assert_eq!(info.documentation, "man:NetworkManager(8)");
    assert_eq!(info.extra_info, "");
}

#[test]
fn test_parse_show_output_last_line_wins() {
    let info = parse_show_output("Description=first\nDescription=second\n");
    assert_eq!(info.description, "second");
}

#[test]
fn test_parse_cat_output() {
    let text = "\
# /usr/lib/systemd/system/getty@.service\n\
[Unit]\n\
Description=Getty on %I\n\
Documentation=man:agetty(8)\n\
[Service]\n\
ExecStart=-/sbin/agetty %I\n";
    let info = parse_cat_output(text);
    assert_eq!(info.description, "Getty on %I");
    assert_eq!(info.documentation, "man:agetty(8)");
    assert_eq!(info.fragment_path, "/usr/lib/systemd/system/getty@.service");
    assert_eq!(info.active_state, "template");
    assert_eq!(info.sub_state, "n/a");
}

#[test]
fn test_is_template_unit() {
    assert!(is_template_unit("openvpn-client@home.service"));
    assert!(!is_template_unit("sshd.service"));
}

#[test]
fn test_curated_description_lookup() {
    let text = curated_description("pipewire.service").expect("pipewire is curated");
    assert!(text.contains("audio"));
    // The lookup key drops the suffix and the template instance part.
    assert!(curated_description("ly@tty2.service").is_some());
    assert_eq!(
        curated_description("ly@tty2.service"),
        curated_description("ly.service")
    );
    assert!(curated_description("houkago-tea-time.service").is_none());
}

#[test]
fn test_get_service_info_enriches_with_curated_text() {
    let info = get_service_info("pipewire.service", Some("Description=PipeWire Multimedia\n"));
    assert_eq!(info.description, "PipeWire Multimedia");
    assert!(info.extra_info.contains("PipeWire") || info.extra_info.contains("audio"));
}

#[test]
fn test_get_service_info_without_output() {
    let info = get_service_info("no-such-unit.service", None);
    assert_eq!(info.description, "");
    assert_eq!(info.active_state, "");
    assert_eq!(info.extra_info, "");
}

#[test]
fn test_get_service_info_template_path() {
    let info = get_service_info(
        "getty@tty1.service",
        Some("# /usr/lib/systemd/system/getty@.service\nDescription=Getty on %I\n"),
    );
    assert_eq!(info.description, "Getty on %I");
    assert_eq!(info.active_state, "template");
}
