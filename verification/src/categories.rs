//! Mapping from a service unit name to one of a fixed, ordered set of
//! category labels. The order of `category_name` is the display order of
//! the groups; `spec_categorize` is the exact classification rule.
use vstd::prelude::*;

use crate::text::{str_starts_with, str_trim_end_all, trim_end_all};

verus! {

/// The fixed, totally ordered set of category labels, by index.
pub open spec fn category_name(i: int) -> Seq<char> {
    if i == 0 {
        "Audio"@
    } else if i == 1 {
        "Bluetooth"@
    } else if i == 2 {
        "Containers"@
    } else if i == 3 {
        "Display"@
    } else if i == 4 {
        "Network"@
    } else if i == 5 {
        "Printing"@
    } else if i == 6 {
        "Security"@
    } else if i == 7 {
        "Systemd Core"@
    } else {
        "Other"@
    }
}

/// The label at position `i` in the fixed category order.
pub fn category_label(i: usize) -> (r: &'static str)
    requires
        i < 9,
    ensures
        r@ == category_name(i as int),
{
    if i == 0 {
        "Audio"
    } else if i == 1 {
        "Bluetooth"
    } else if i == 2 {
        "Containers"
    } else if i == 3 {
        "Display"
    } else if i == 4 {
        "Network"
    } else if i == 5 {
        "Printing"
    } else if i == 6 {
        "Security"
    } else if i == 7 {
        "Systemd Core"
    } else {
        "Other"
    }
}

/// The category index of a unit name whose `.service` suffixes are
/// already trimmed away.
pub open spec fn spec_categorize_trimmed(n: Seq<char>) -> int {
    if "NetworkManager"@.is_prefix_of(n) || "wpa_supplicant"@.is_prefix_of(n)
        || "systemd-networkd"@.is_prefix_of(n) || "systemd-resolved"@.is_prefix_of(n)
        || "iwd"@.is_prefix_of(n) || "dhcpcd"@.is_prefix_of(n) || "connman"@.is_prefix_of(n) {
        4
    } else if "pipewire"@.is_prefix_of(n) || "pulseaudio"@.is_prefix_of(n)
        || "wireplumber"@.is_prefix_of(n) {
        0
    } else if "bluetooth"@.is_prefix_of(n) || "blueman"@.is_prefix_of(n) {
        1
    } else if "gdm"@.is_prefix_of(n) || "sddm"@.is_prefix_of(n) || "lightdm"@.is_prefix_of(n)
        || "greetd"@.is_prefix_of(n) || "ly"@.is_prefix_of(n) {
        3
    } else if "docker"@.is_prefix_of(n) || "podman"@.is_prefix_of(n)
        || "containerd"@.is_prefix_of(n) {
        2
    } else if "firewalld"@.is_prefix_of(n) || "ufw"@.is_prefix_of(n)
        || "apparmor"@.is_prefix_of(n) || "sshd"@.is_prefix_of(n)
        || "fail2ban"@.is_prefix_of(n) {
        6
    } else if "cups"@.is_prefix_of(n) || "avahi"@.is_prefix_of(n) {
        5
    } else if "systemd-"@.is_prefix_of(n) {
        7
    } else {
        8
    }
}

/// The category index of a service unit name.
pub open spec fn spec_categorize(name: Seq<char>) -> int {
    spec_categorize_trimmed(trim_end_all(name, ".service"@))
}

/// Whether any of `patterns` is a prefix of `name`.
pub fn matches_any(name: &str, patterns: &[&str]) -> (r: bool)
    ensures
        r == exists|k: int| 0 <= k < patterns@.len() && patterns@[k]@.is_prefix_of(name@),
{
    let mut i: usize = 0;
    while i < patterns.len()
        invariant
            i <= patterns@.len(),
            forall|k: int| 0 <= k < i ==> !patterns@[k]@.is_prefix_of(name@),
        decreases patterns@.len() - i,
    {
        if str_starts_with(name, patterns[i]) {
            return true;
        }
        i = i + 1;
    }
    false
}

/// The category index of a service unit name, as executable code.
pub fn categorize_index(service_name: &str) -> (r: usize)
    ensures
        r == spec_categorize(service_name@),
        r < 9,
{
    let n = str_trim_end_all(service_name, ".service");

    if str_starts_with(n, "NetworkManager") || str_starts_with(n, "wpa_supplicant")
        || str_starts_with(n, "systemd-networkd") || str_starts_with(n, "systemd-resolved")
        || str_starts_with(n, "iwd") || str_starts_with(n, "dhcpcd")
        || str_starts_with(n, "connman") {
        return 4;
    }
    if str_starts_with(n, "pipewire") || str_starts_with(n, "pulseaudio")
        || str_starts_with(n, "wireplumber") {
        return 0;
    }
    if str_starts_with(n, "bluetooth") || str_starts_with(n, "blueman") {
        return 1;
    }
    if str_starts_with(n, "gdm") || str_starts_with(n, "sddm") || str_starts_with(n, "lightdm")
        || str_starts_with(n, "greetd") || str_starts_with(n, "ly") {
        return 3;
    }
    if str_starts_with(n, "docker") || str_starts_with(n, "podman")
        || str_starts_with(n, "containerd") {
        return 2;
    }
    if str_starts_with(n, "firewalld") || str_starts_with(n, "ufw")
        || str_starts_with(n, "apparmor") || str_starts_with(n, "sshd")
        || str_starts_with(n, "fail2ban") {
        return 6;
    }
    if str_starts_with(n, "cups") || str_starts_with(n, "avahi") {
        return 5;
    }
    if str_starts_with(n, "systemd-") {
        return 7;
    }
    8
}

/// Every name's category index lies within the fixed order.
pub proof fn lemma_categorize_in_range(name: Seq<char>)
    ensures
        0 <= spec_categorize(name) < 9,
{
}

/// The category label of a service unit name.
pub fn categorize(service_name: &str) -> (r: &'static str)
    ensures
        r@ == category_name(spec_categorize(service_name@)),
{
    category_label(categorize_index(service_name))
}

} // verus!
