//! Parsing of the directory's descriptive output for one service unit:
//! the `key=value` properties listing, the unit-file text fallback used
//! for template units, and the curated descriptions that enrich generic
//! ones. The commands themselves run outside; these functions turn their
//! captured output into a `ServiceInfo` record.
use vstd::prelude::*;

use crate::services::ServiceInfo;
use crate::text::{
    find_char, find_char_at, lemma_find_char, spec_lines, split_lines, str_eq, str_starts_with,
    str_trim_start_all, str_trim_ws, trim_start_all, trim_ws, vec_str_ref,
};

verus! {

/// The line is `key=value` for this key: it has an equals sign and the
/// text before the first one is exactly the key.
pub open spec fn line_sets(l: Seq<char>, key: Seq<char>) -> bool {
    let i = find_char(l, '=');
    0 <= i && l.subrange(0, i) == key
}

/// The text after the first equals sign.
pub open spec fn kv_value(l: Seq<char>) -> Seq<char> {
    l.subrange(find_char(l, '=') + 1, l.len() as int)
}

/// The value of the last `key=value` line for this key, or empty when no
/// line sets it: later lines win, as when reading the listing top down
/// into one record.
pub open spec fn show_field(lines: Seq<Seq<char>>, key: Seq<char>) -> Seq<char>
    decreases lines.len(),
{
    if lines.len() == 0 {
        Seq::empty()
    } else if line_sets(lines.last(), key) {
        kv_value(lines.last())
    } else {
        show_field(lines.drop_last(), key)
    }
}

/// The remainder of the last line that, once trimmed, starts with `pre`;
/// empty when no line does.
pub open spec fn prefix_field(lines: Seq<Seq<char>>, pre: Seq<char>) -> Seq<char>
    decreases lines.len(),
{
    if lines.len() == 0 {
        Seq::empty()
    } else {
        let t = trim_ws(lines.last());
        if pre.is_prefix_of(t) {
            t.subrange(pre.len() as int, t.len() as int)
        } else {
            prefix_field(lines.drop_last(), pre)
        }
    }
}

/// The unit-file path of the last comment line naming one: the trimmed
/// line starts with `# /` and keeps everything after its `# ` markers.
pub open spec fn cat_fragment(lines: Seq<Seq<char>>) -> Seq<char>
    decreases lines.len(),
{
    if lines.len() == 0 {
        Seq::empty()
    } else {
        let t = trim_ws(lines.last());
        if "# /"@.is_prefix_of(t) {
            trim_start_all(t, "# "@)
        } else {
            cat_fragment(lines.drop_last())
        }
    }
}

/// Parse the output of the properties query: each line is `key=value`,
/// and for each of the six properties the last line naming it wins.
pub fn parse_show_output(text: &str) -> (info: ServiceInfo)
    ensures
        info.description@ == show_field(spec_lines(text@), "Description"@),
        info.active_state@ == show_field(spec_lines(text@), "ActiveState"@),
        info.sub_state@ == show_field(spec_lines(text@), "SubState"@),
        info.fragment_path@ == show_field(spec_lines(text@), "FragmentPath"@),
        info.triggered_by@ == show_field(spec_lines(text@), "TriggeredBy"@),
        info.documentation@ == show_field(spec_lines(text@), "Documentation"@),
        info.extra_info@.len() == 0,
{
    let ghost all = spec_lines(text@);
    let lines = split_lines(text);
    let mut info = ServiceInfo::empty();
    let n = lines.len();
    let mut i: usize = 0;
    proof {
        assert(all.take(0) =~= Seq::<Seq<char>>::empty());
    }
    while i < n
        invariant
            n == lines@.len(),
            i <= n,
            all == spec_lines(text@),
            n == all.len(),
            forall|j: int| 0 <= j < n ==> (#[trigger] lines@[j])@ == all[j],
            info.description@ == show_field(all.take(i as int), "Description"@),
            info.active_state@ == show_field(all.take(i as int), "ActiveState"@),
            info.sub_state@ == show_field(all.take(i as int), "SubState"@),
            info.fragment_path@ == show_field(all.take(i as int), "FragmentPath"@),
            info.triggered_by@ == show_field(all.take(i as int), "TriggeredBy"@),
            info.documentation@ == show_field(all.take(i as int), "Documentation"@),
            info.extra_info@.len() == 0,
        decreases n - i,
    {
        let line = *vec_str_ref(&lines, i);
        proof {
            assert(all.take(i + 1).drop_last() =~= all.take(i as int));
            assert(all.take(i + 1).last() == all[i as int]);
        }
        match find_char_at(line, '=') {
            Some(p) => {
                proof {
                    lemma_find_char(line@, '=');
                }
                let curlen = line.unicode_len();
                let key = line.substring_char(0, p);
                let value = line.substring_char(p + 1, curlen);
                if str_eq(key, "Description") {
                    info.description = value.to_owned();
                }
                if str_eq(key, "ActiveState") {
                    info.active_state = value.to_owned();
                }
                if str_eq(key, "SubState") {
                    info.sub_state = value.to_owned();
                }
                if str_eq(key, "FragmentPath") {
                    info.fragment_path = value.to_owned();
                }
                if str_eq(key, "TriggeredBy") {
                    info.triggered_by = value.to_owned();
                }
                if str_eq(key, "Documentation") {
                    info.documentation = value.to_owned();
                }
            },
            None => {
            },
        }
        i = i + 1;
    }
    proof {
        assert(all.take(n as int) =~= all);
    }
    info
}

/// Parse the unit-file text used for template units: `Description=` and
/// `Documentation=` lines (trimmed) fill those fields, a `# /` comment
/// names the unit file, and the runtime state reads as a template's.
pub fn parse_cat_output(text: &str) -> (info: ServiceInfo)
    ensures
        info.description@ == prefix_field(spec_lines(text@), "Description="@),
        info.documentation@ == prefix_field(spec_lines(text@), "Documentation="@),
        info.fragment_path@ == cat_fragment(spec_lines(text@)),
        info.active_state@ == "template"@,
        info.sub_state@ == "n/a"@,
        info.triggered_by@.len() == 0,
        info.extra_info@.len() == 0,
{
    let ghost all = spec_lines(text@);
    let lines = split_lines(text);
    let mut info = ServiceInfo::empty();
    let n = lines.len();
    let mut i: usize = 0;
    proof {
        assert(all.take(0) =~= Seq::<Seq<char>>::empty());
    }
    while i < n
        invariant
            n == lines@.len(),
            i <= n,
            all == spec_lines(text@),
            n == all.len(),
            forall|j: int| 0 <= j < n ==> (#[trigger] lines@[j])@ == all[j],
            info.description@ == prefix_field(all.take(i as int), "Description="@),
            info.documentation@ == prefix_field(all.take(i as int), "Documentation="@),
            info.fragment_path@ == cat_fragment(all.take(i as int)),
            info.active_state@.len() == 0,
            info.sub_state@.len() == 0,
            info.triggered_by@.len() == 0,
            info.extra_info@.len() == 0,
        decreases n - i,
    {
        let line = *vec_str_ref(&lines, i);
        proof {
            assert(all.take(i + 1).drop_last() =~= all.take(i as int));
            assert(all.take(i + 1).last() == all[i as int]);
        }
        let trimmed = str_trim_ws(line);
        let tlen = trimmed.unicode_len();
        if str_starts_with(trimmed, "Description=") {
            let plen = "Description=".unicode_len();
            info.description = trimmed.substring_char(plen, tlen).to_owned();
        }
        if str_starts_with(trimmed, "Documentation=") {
            let plen = "Documentation=".unicode_len();
            info.documentation = trimmed.substring_char(plen, tlen).to_owned();
        }
        if str_starts_with(trimmed, "# /") {
            info.fragment_path = str_trim_start_all(trimmed, "# ").to_owned();
        }
        i = i + 1;
    }
    proof {
        assert(all.take(n as int) =~= all);
    }
    info.active_state = "template".to_owned();
    info.sub_state = "n/a".to_owned();
    info
}

/// The unit name is a template instance: it holds an `@`.
pub open spec fn is_template_name(s: Seq<char>) -> bool {
    find_char(s, '@') >= 0
}

/// Whether the unit name is a template instance, as executable code.
pub fn is_template_unit(service: &str) -> (r: bool)
    ensures
        r == is_template_name(service@),
{
    match find_char_at(service, '@') {
        Some(_i) => true,
        None => false,
    }
}

/// The key the curated table is looked up with: the unit name without
/// its `.service` suffixes and without any template instance part.
pub open spec fn curated_base(s: Seq<char>) -> Seq<char> {
    let n = crate::text::trim_end_all(s, ".service"@);
    if find_char(n, '@') >= 0 {
        n.subrange(0, find_char(n, '@'))
    } else {
        n
    }
}

/// The curated description of a well-known unit, if there is one.
pub open spec fn spec_curated(base: Seq<char>) -> Option<Seq<char>> {
    if base == "gdm"@ {
        Some("GNOME Display Manager. Provides graphical login screen and manages user sessions. Handles X11/Wayland session startup."@)
    } else if base == "sddm"@ {
        Some("Simple Desktop Display Manager. Qt-based login screen, commonly used with KDE Plasma."@)
    } else if base == "lightdm"@ {
        Some("Lightweight Display Manager. Cross-desktop login screen supporting multiple greeters."@)
    } else if base == "ly"@ {
        Some("Lightweight TUI display manager. Provides a terminal-based login screen as an alternative to graphical display managers."@)
    } else if base == "greetd"@ {
        Some("Minimal login daemon. Supports pluggable greeter frontends (tuigreet, gtkgreet, etc.)."@)
    } else if base == "NetworkManager"@ {
        Some("Desktop network management daemon. Manages WiFi, Ethernet, VPN, and mobile broadband connections. Provides nm-applet tray icon."@)
    } else if base == "NetworkManager-dispatcher"@ {
        Some("Runs scripts in response to network events (connect/disconnect). Scripts live in /etc/NetworkManager/dispatcher.d/."@)
    } else if base == "NetworkManager-wait-online"@ {
        Some("Blocks boot until network is fully connected. Needed by services requiring network at startup. Can slow boot if network is slow."@)
    } else if base == "systemd-networkd"@ {
        Some("Systemd's built-in network manager. Lighter alternative to NetworkManager, configured via .network files in /etc/systemd/network/."@)
    } else if base == "systemd-resolved"@ {
        Some("Systemd DNS resolver. Provides DNS caching, DNSSEC validation, and DNS-over-TLS. Manages /etc/resolv.conf."@)
    } else if base == "wpa_supplicant"@ {
        Some("WiFi authentication daemon (WPA/WPA2/WPA3). Usually managed by NetworkManager, but can run standalone for simpler setups."@)
    } else if base == "iwd"@ {
        Some("Intel Wireless Daemon. Modern alternative to wpa_supplicant with simpler config. Can be used as NetworkManager's WiFi backend."@)
    } else if base == "pipewire"@ {
        Some("Modern audio/video server replacing PulseAudio and JACK. Handles screen sharing, Bluetooth audio, and low-latency audio."@)
    } else if base == "wireplumber"@ {
        Some("Session manager for PipeWire. Handles audio routing policy, device management, and Bluetooth audio profiles."@)
    } else if base == "pulseaudio"@ {
        Some("Legacy audio server. Being replaced by PipeWire on most modern Linux desktops."@)
    } else if base == "bluetooth"@ {
        Some("BlueZ Bluetooth daemon. Manages Bluetooth device pairing, connections, and profiles (A2DP, HFP, etc.)."@)
    } else if base == "blueman-mechanism"@ {
        Some("Blueman privilege helper. Allows the Blueman Bluetooth manager applet to perform system-level Bluetooth operations."@)
    } else if base == "cups"@ {
        Some("Common Unix Printing System. Manages print queues, printer discovery (via Avahi/mDNS), and IPP printing. Web UI at localhost:631."@)
    } else if base == "avahi-daemon"@ {
        Some("mDNS/DNS-SD daemon for zero-configuration networking. Enables .local hostname resolution and network service discovery (printers, etc.)."@)
    } else if base == "avahi-dnsconfd"@ {
        Some("Configures DNS servers discovered via Avahi. Rarely needed if using NetworkManager or systemd-resolved."@)
    } else if base == "sshd"@ {
        Some("OpenSSH server daemon. Accepts incoming SSH connections for remote shell access, file transfer (scp/sftp), and tunneling."@)
    } else if base == "ufw"@ {
        Some("Uncomplicated Firewall. User-friendly frontend for iptables/nftables. Manages incoming/outgoing traffic rules."@)
    } else if base == "firewalld"@ {
        Some("Dynamic firewall daemon with zones. Uses nftables backend. Supports runtime changes without restarting."@)
    } else if base == "nftables"@ {
        Some("Netfilter tables. Modern kernel packet filtering framework replacing iptables. Rules in /etc/nftables.conf."@)
    } else if base == "apparmor"@ {
        Some("Mandatory Access Control security framework. Confines programs to limited resources using per-program profiles."@)
    } else if base == "auditd"@ {
        Some("Linux Audit daemon. Logs security-relevant events (file access, syscalls, authentication) per configured rules."@)
    } else if base == "fail2ban"@ {
        Some("Intrusion prevention. Monitors log files and bans IPs showing malicious signs (brute-force SSH, etc.) via firewall rules."@)
    } else if base == "upower"@ {
        Some("Power management abstraction. Provides battery info, suspend/hibernate support. Used by desktop environments for power status."@)
    } else if base == "power-profiles-daemon"@ {
        Some("Provides power profile switching (balanced, power-saver, performance). Used by GNOME/KDE power settings."@)
    } else if base == "cpupower"@ {
        Some("CPU frequency scaling. Sets CPU governor (performance/powersave/schedutil) at boot. Config in /etc/default/cpupower."@)
    } else if base == "lm_sensors"@ {
        Some("Hardware monitoring. Reads CPU/GPU temperatures, fan speeds, and voltages from sensor chips."@)
    } else if base == "smartd"@ {
        Some("S.M.A.R.T. disk monitoring daemon. Watches hard drive health indicators and warns of impending failures."@)
    } else if base == "fancontrol"@ {
        Some("Fan speed control daemon. Uses lm_sensors data to dynamically adjust fan speeds based on temperature."@)
    } else if base == "docker"@ {
        Some("Docker container runtime. Manages container images, networks, and volumes. API on /var/run/docker.sock."@)
    } else if base == "podman"@ {
        Some("Daemonless container engine. Docker-compatible CLI but runs rootless by default. No persistent daemon needed."@)
    } else if base == "containerd"@ {
        Some("Container runtime daemon. Low-level container execution used by Docker and Kubernetes."@)
    } else if base == "systemd-timesyncd"@ {
        Some("Simple NTP client. Synchronizes system clock with network time servers. Lighter alternative to chrony/ntpd."@)
    } else if base == "systemd-oomd"@ {
        Some("Out-of-memory daemon. Monitors memory pressure and kills cgroup trees before the kernel OOM killer triggers."@)
    } else if base == "systemd-homed"@ {
        Some("Portable home directory manager. Stores home dirs as LUKS-encrypted images that can move between machines."@)
    } else if base == "systemd-boot-update"@ {
        Some("Automatically updates systemd-boot EFI bootloader when systemd is upgraded."@)
    } else if base == "systemd-pstore"@ {
        Some("Persistent storage for kernel crash dumps. Copies pstore data (dmesg, etc.) from /sys/fs/pstore to /var/lib/systemd/pstore."@)
    } else if base == "accounts-daemon"@ {
        Some("D-Bus service for user account management. Used by GDM and GNOME Settings for user info, avatar, and language preferences."@)
    } else if base == "rtkit-daemon"@ {
        Some("RealtimeKit. Safely grants realtime scheduling priority to user processes (PipeWire, audio apps) without running them as root."@)
    } else if base == "udisks2"@ {
        Some("Disk management daemon. Provides D-Bus API for mounting/unmounting drives, used by file managers for removable media."@)
    } else if base == "ModemManager"@ {
        Some("Mobile broadband modem management. Controls 3G/4G/5G modems and provides connection setup. Safe to disable without mobile broadband."@)
    } else if base == "haveged"@ {
        Some("Entropy harvesting daemon. Feeds additional randomness to /dev/random. Less needed on modern kernels with good entropy sources."@)
    } else if base == "gpm"@ {
        Some("General Purpose Mouse. Provides mouse support in Linux virtual consoles (TTY). Not needed in graphical environments."@)
    } else if base == "reflector"@ {
        Some("Arch Linux mirrorlist updater. Fetches latest mirror list and sorts by speed/country. Usually run via timer, not continuously."@)
    } else if base == "ananicy-cpp"@ {
        Some("Auto Nice Daemon (C++ rewrite). Automatically adjusts process priorities and I/O scheduling for better desktop responsiveness."@)
    } else if base == "cachyos-rate-mirrors"@ {
        Some("CachyOS mirror rating. Tests and sorts pacman mirrors by speed for faster package downloads."@)
    } else if base == "scx_loader"@ {
        Some("Sched-ext loader. Loads custom Linux CPU schedulers (BORE, Rusty, etc.) for CachyOS's optimized scheduling."@)
    } else if base == "seatd"@ {
        Some("Minimal seat management daemon. Provides unprivileged access to input/display devices for Wayland compositors (Sway, etc.)."@)
    } else if base == "openvpn-client"@ || base == "openvpn-server"@ {
        Some("OpenVPN tunnel. Template unit — instantiate with config name (e.g., openvpn-client@myconfig)."@)
    } else if base == "dnsmasq"@ {
        Some("Lightweight DNS forwarder and DHCP server. Often used for local DNS caching, network boot (PXE), or VM networking."@)
    } else if base == "nextdns"@ {
        Some("NextDNS CLI client. Routes DNS queries through NextDNS for ad-blocking, tracking protection, and security filtering."@)
    } else {
        None
    }
}

/// The curated description of a well-known unit: richer text for units
/// whose own description is generic. The lookup key is the unit name
/// without its `.service` suffix and template instance part.
pub fn curated_description(service: &str) -> (r: Option<&'static str>)
    ensures
        match r {
            Some(t) => spec_curated(curated_base(service@)) == Some(t@),
            None => spec_curated(curated_base(service@)) is None,
        },
{
    let name = crate::text::str_trim_end_all(service, ".service");
    let base = match find_char_at(name, '@') {
        Some(i) => {
            proof {
                lemma_find_char(name@, '@');
            }
            name.substring_char(0, i)
        },
        None => name,
    };
    if str_eq(base, "gdm") {
        Some("GNOME Display Manager. Provides graphical login screen and manages user sessions. Handles X11/Wayland session startup.")
    } else if str_eq(base, "sddm") {
        Some("Simple Desktop Display Manager. Qt-based login screen, commonly used with KDE Plasma.")
    } else if str_eq(base, "lightdm") {
        Some("Lightweight Display Manager. Cross-desktop login screen supporting multiple greeters.")
    } else if str_eq(base, "ly") {
        Some("Lightweight TUI display manager. Provides a terminal-based login screen as an alternative to graphical display managers.")
    } else if str_eq(base, "greetd") {
        Some("Minimal login daemon. Supports pluggable greeter frontends (tuigreet, gtkgreet, etc.).")
    } else if str_eq(base, "NetworkManager") {
        Some("Desktop network management daemon. Manages WiFi, Ethernet, VPN, and mobile broadband connections. Provides nm-applet tray icon.")
    } else if str_eq(base, "NetworkManager-dispatcher") {
        Some("Runs scripts in response to network events (connect/disconnect). Scripts live in /etc/NetworkManager/dispatcher.d/.")
    } else if str_eq(base, "NetworkManager-wait-online") {
        Some("Blocks boot until network is fully connected. Needed by services requiring network at startup. Can slow boot if network is slow.")
    } else if str_eq(base, "systemd-networkd") {
        Some("Systemd's built-in network manager. Lighter alternative to NetworkManager, configured via .network files in /etc/systemd/network/.")
    } else if str_eq(base, "systemd-resolved") {
        Some("Systemd DNS resolver. Provides DNS caching, DNSSEC validation, and DNS-over-TLS. Manages /etc/resolv.conf.")
    } else if str_eq(base, "wpa_supplicant") {
        Some("WiFi authentication daemon (WPA/WPA2/WPA3). Usually managed by NetworkManager, but can run standalone for simpler setups.")
    } else if str_eq(base, "iwd") {
        Some("Intel Wireless Daemon. Modern alternative to wpa_supplicant with simpler config. Can be used as NetworkManager's WiFi backend.")
    } else if str_eq(base, "pipewire") {
        Some("Modern audio/video server replacing PulseAudio and JACK. Handles screen sharing, Bluetooth audio, and low-latency audio.")
    } else if str_eq(base, "wireplumber") {
        Some("Session manager for PipeWire. Handles audio routing policy, device management, and Bluetooth audio profiles.")
    } else if str_eq(base, "pulseaudio") {
        Some("Legacy audio server. Being replaced by PipeWire on most modern Linux desktops.")
    } else if str_eq(base, "bluetooth") {
        Some("BlueZ Bluetooth daemon. Manages Bluetooth device pairing, connections, and profiles (A2DP, HFP, etc.).")
    } else if str_eq(base, "blueman-mechanism") {
        Some("Blueman privilege helper. Allows the Blueman Bluetooth manager applet to perform system-level Bluetooth operations.")
    } else if str_eq(base, "cups") {
        Some("Common Unix Printing System. Manages print queues, printer discovery (via Avahi/mDNS), and IPP printing. Web UI at localhost:631.")
    } else if str_eq(base, "avahi-daemon") {
        Some("mDNS/DNS-SD daemon for zero-configuration networking. Enables .local hostname resolution and network service discovery (printers, etc.).")
    } else if str_eq(base, "avahi-dnsconfd") {
        Some("Configures DNS servers discovered via Avahi. Rarely needed if using NetworkManager or systemd-resolved.")
    } else if str_eq(base, "sshd") {
        Some("OpenSSH server daemon. Accepts incoming SSH connections for remote shell access, file transfer (scp/sftp), and tunneling.")
    } else if str_eq(base, "ufw") {
        Some("Uncomplicated Firewall. User-friendly frontend for iptables/nftables. Manages incoming/outgoing traffic rules.")
    } else if str_eq(base, "firewalld") {
        Some("Dynamic firewall daemon with zones. Uses nftables backend. Supports runtime changes without restarting.")
    } else if str_eq(base, "nftables") {
        Some("Netfilter tables. Modern kernel packet filtering framework replacing iptables. Rules in /etc/nftables.conf.")
    } else if str_eq(base, "apparmor") {
        Some("Mandatory Access Control security framework. Confines programs to limited resources using per-program profiles.")
    } else if str_eq(base, "auditd") {
        Some("Linux Audit daemon. Logs security-relevant events (file access, syscalls, authentication) per configured rules.")
    } else if str_eq(base, "fail2ban") {
        Some("Intrusion prevention. Monitors log files and bans IPs showing malicious signs (brute-force SSH, etc.) via firewall rules.")
    } else if str_eq(base, "upower") {
        Some("Power management abstraction. Provides battery info, suspend/hibernate support. Used by desktop environments for power status.")
    } else if str_eq(base, "power-profiles-daemon") {
        Some("Provides power profile switching (balanced, power-saver, performance). Used by GNOME/KDE power settings.")
    } else if str_eq(base, "cpupower") {
        Some("CPU frequency scaling. Sets CPU governor (performance/powersave/schedutil) at boot. Config in /etc/default/cpupower.")
    } else if str_eq(base, "lm_sensors") {
        Some("Hardware monitoring. Reads CPU/GPU temperatures, fan speeds, and voltages from sensor chips.")
    } else if str_eq(base, "smartd") {
        Some("S.M.A.R.T. disk monitoring daemon. Watches hard drive health indicators and warns of impending failures.")
    } else if str_eq(base, "fancontrol") {
        Some("Fan speed control daemon. Uses lm_sensors data to dynamically adjust fan speeds based on temperature.")
    } else if str_eq(base, "docker") {
        Some("Docker container runtime. Manages container images, networks, and volumes. API on /var/run/docker.sock.")
    } else if str_eq(base, "podman") {
        Some("Daemonless container engine. Docker-compatible CLI but runs rootless by default. No persistent daemon needed.")
    } else if str_eq(base, "containerd") {
        Some("Container runtime daemon. Low-level container execution used by Docker and Kubernetes.")
    } else if str_eq(base, "systemd-timesyncd") {
        Some("Simple NTP client. Synchronizes system clock with network time servers. Lighter alternative to chrony/ntpd.")
    } else if str_eq(base, "systemd-oomd") {
        Some("Out-of-memory daemon. Monitors memory pressure and kills cgroup trees before the kernel OOM killer triggers.")
    } else if str_eq(base, "systemd-homed") {
        Some("Portable home directory manager. Stores home dirs as LUKS-encrypted images that can move between machines.")
    } else if str_eq(base, "systemd-boot-update") {
        Some("Automatically updates systemd-boot EFI bootloader when systemd is upgraded.")
    } else if str_eq(base, "systemd-pstore") {
        Some("Persistent storage for kernel crash dumps. Copies pstore data (dmesg, etc.) from /sys/fs/pstore to /var/lib/systemd/pstore.")
    } else if str_eq(base, "accounts-daemon") {
        Some("D-Bus service for user account management. Used by GDM and GNOME Settings for user info, avatar, and language preferences.")
    } else if str_eq(base, "rtkit-daemon") {
        Some("RealtimeKit. Safely grants realtime scheduling priority to user processes (PipeWire, audio apps) without running them as root.")
    } else if str_eq(base, "udisks2") {
        Some("Disk management daemon. Provides D-Bus API for mounting/unmounting drives, used by file managers for removable media.")
    } else if str_eq(base, "ModemManager") {
        Some("Mobile broadband modem management. Controls 3G/4G/5G modems and provides connection setup. Safe to disable without mobile broadband.")
    } else if str_eq(base, "haveged") {
        Some("Entropy harvesting daemon. Feeds additional randomness to /dev/random. Less needed on modern kernels with good entropy sources.")
    } else if str_eq(base, "gpm") {
        Some("General Purpose Mouse. Provides mouse support in Linux virtual consoles (TTY). Not needed in graphical environments.")
    } else if str_eq(base, "reflector") {
        Some("Arch Linux mirrorlist updater. Fetches latest mirror list and sorts by speed/country. Usually run via timer, not continuously.")
    } else if str_eq(base, "ananicy-cpp") {
        Some("Auto Nice Daemon (C++ rewrite). Automatically adjusts process priorities and I/O scheduling for better desktop responsiveness.")
    } else if str_eq(base, "cachyos-rate-mirrors") {
        Some("CachyOS mirror rating. Tests and sorts pacman mirrors by speed for faster package downloads.")
    } else if str_eq(base, "scx_loader") {
        Some("Sched-ext loader. Loads custom Linux CPU schedulers (BORE, Rusty, etc.) for CachyOS's optimized scheduling.")
    } else if str_eq(base, "seatd") {
        Some("Minimal seat management daemon. Provides unprivileged access to input/display devices for Wayland compositors (Sway, etc.).")
    } else if str_eq(base, "openvpn-client") || str_eq(base, "openvpn-server") {
        Some("OpenVPN tunnel. Template unit — instantiate with config name (e.g., openvpn-client@myconfig).")
    } else if str_eq(base, "dnsmasq") {
        Some("Lightweight DNS forwarder and DHCP server. Often used for local DNS caching, network boot (PXE), or VM networking.")
    } else if str_eq(base, "nextdns") {
        Some("NextDNS CLI client. Routes DNS queries through NextDNS for ad-blocking, tracking protection, and security filtering.")
    } else {
        None
    }
}

/// The descriptive record of one service unit, from the captured output
/// of the query that suits it: the unit-file text for a template unit,
/// the properties listing otherwise, and an all-empty record when the
/// query brought nothing. A curated description, where the table has
/// one, fills the extra-info field.
pub fn get_service_info(service: &str, raw: Option<&str>) -> (info: ServiceInfo)
    ensures
        info.extra_info@ == (match spec_curated(curated_base(service@)) {
            Some(t) => t,
            None => Seq::<char>::empty(),
        }),
        ({
            let tmpl = is_template_name(service@);
            match raw {
                Some(t) => {
                    &&& tmpl ==> {
                        &&& info.description@ == prefix_field(spec_lines(t@), "Description="@)
                        &&& info.documentation@ == prefix_field(spec_lines(t@), "Documentation="@)
                        &&& info.fragment_path@ == cat_fragment(spec_lines(t@))
                        &&& info.active_state@ == "template"@
                        &&& info.sub_state@ == "n/a"@
                        &&& info.triggered_by@.len() == 0
                    }
                    &&& !tmpl ==> {
                        &&& info.description@ == show_field(spec_lines(t@), "Description"@)
                        &&& info.active_state@ == show_field(spec_lines(t@), "ActiveState"@)
                        &&& info.sub_state@ == show_field(spec_lines(t@), "SubState"@)
                        &&& info.fragment_path@ == show_field(spec_lines(t@), "FragmentPath"@)
                        &&& info.triggered_by@ == show_field(spec_lines(t@), "TriggeredBy"@)
                        &&& info.documentation@ == show_field(spec_lines(t@), "Documentation"@)
                    }
                },
                None => {
                    &&& info.description@.len() == 0
                    &&& info.active_state@.len() == 0
                    &&& info.sub_state@.len() == 0
                    &&& info.fragment_path@.len() == 0
                    &&& info.triggered_by@.len() == 0
                    &&& info.documentation@.len() == 0
                },
            }
        }),
{
    let mut info = match raw {
        Some(t) => {
            if is_template_unit(service) {
                parse_cat_output(t)
            } else {
                parse_show_output(t)
            }
        },
        None => ServiceInfo::empty(),
    };
    if let Some(extra) = curated_description(service) {
        info.extra_info = extra.to_owned();
    }
    info
}

} // verus!
