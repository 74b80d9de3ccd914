use svcdeck::text::{str_contains_ci, str_ends_with, str_eq, str_starts_with, str_trim_end_all};

#[test]
fn test_str_eq() {
    assert!(str_eq("abc", "abc"));
    assert!(!str_eq("abc", "abd"));
    assert!(!str_eq("abc", "abcd"));
    assert!(str_eq("", ""));
}

#[test]
fn test_str_starts_with() {
    assert!(str_starts_with("NetworkManager", "Network"));
    assert!(!str_starts_with("Network", "NetworkManager"));
    assert!(str_starts_with("anything", ""));
}

#[test]
fn test_str_ends_with() {
    assert!(str_ends_with("foo.service", ".service"));
    assert!(!str_ends_with("foo.servic", ".service"));
}

#[test]
fn test_str_trim_end_all_repeats() {
    assert_eq!(str_trim_end_all("a.service.service", ".service"), "a");
    assert_eq!(str_trim_end_all("a.service", ".service"), "a");
    assert_eq!(str_trim_end_all("a", ".service"), "a");
    assert_eq!(str_trim_end_all("abc", ""), "abc");
}

#[test]
fn test_str_contains_ci() {
    assert!(str_contains_ci("NetworkManager", "netw"));
    assert!(str_contains_ci("pipewire", "WIRE"));
    assert!(!str_contains_ci("pipewire", "wired"));
    assert!(str_contains_ci("anything", ""));
    assert!(!str_contains_ci("", "x"));
}
