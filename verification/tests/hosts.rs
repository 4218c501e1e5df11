use ainv_helper::config::{HostsConfig, HostsEntry};
use ainv_helper::hosts::{
    append_ios_sim_block, apply, clear_managed, format_managed_block, install_command,
    ios_sim_block, is_ios_sim_block_present, is_ios_sim_route_active, merge, remove_ios_sim_block,
    remove_managed_block, shell_escape, staging_path, toggle_ios_sim_route, HostsError,
};

fn entry(ip: &str, hostname: &str) -> HostsEntry {
    HostsEntry { ip: ip.to_string(), hostname: hostname.to_string() }
}

#[test]
fn removes_and_replaces_managed_block() {
    let input = "127.0.0.1 localhost\n# --- ainv-helper begin ---\n127.0.0.1 old.test\n# --- ainv-helper end ---\n";
    let entries = vec![HostsEntry {
        ip: "127.0.0.1".into(),
        hostname: "new.test".into(),
    }];
    let merged = merge(input, &entries);
    assert!(merged.contains("new.test"));
    assert!(!merged.contains("old.test"));
    assert!(merged.contains("127.0.0.1 localhost"));
}

#[test]
fn detects_ios_sim_block() {
    let content = format!("127.0.0.1 localhost\n{}", ios_sim_block());
    assert!(is_ios_sim_block_present(&content));
}

#[test]
fn toggles_ios_sim_block() {
    let base = "127.0.0.1 localhost\n";
    let with_block = append_ios_sim_block(base);
    assert!(is_ios_sim_block_present(&with_block));
    let cleared = remove_ios_sim_block(&with_block);
    assert!(!is_ios_sim_block_present(&cleared));
}

#[test]
fn ios_sim_block_text() {
    assert_eq!(
        ios_sim_block(),
        "# BEGIN AMIO IOS SIMULATOR\n127.0.0.1 invest-test.alfabank.ru\n# END AMIO IOS SIMULATOR\n"
    );
}

#[test]
fn merge_exact_text() {
    let input = "127.0.0.1 localhost\n# --- ainv-helper begin ---\n127.0.0.1 old.test\n# --- ainv-helper end ---\n::1 ip6\n";
    let entries = vec![entry(" 10.0.0.1 ", "\tapi.test "), entry("10.0.0.2", "web.test")];
    assert_eq!(
        merge(input, &entries),
        "127.0.0.1 localhost\n::1 ip6\n# --- ainv-helper begin ---\n10.0.0.1 api.test\n10.0.0.2 web.test\n# --- ainv-helper end ---\n"
    );
}

#[test]
fn merge_without_entries_drops_block() {
    let input = "127.0.0.1 localhost\n# --- ainv-helper begin ---\n1.1.1.1 a\n# --- ainv-helper end ---\n\n\n";
    assert_eq!(merge(input, &vec![]), "127.0.0.1 localhost\n");
    assert_eq!(merge("", &vec![]), "\n");
}

#[test]
fn merge_into_empty_file() {
    let entries = vec![entry("1.2.3.4", "x.test")];
    assert_eq!(
        merge("", &entries),
        "# --- ainv-helper begin ---\n1.2.3.4 x.test\n# --- ainv-helper end ---\n"
    );
}

#[test]
fn format_block() {
    assert_eq!(format_managed_block(&vec![]), "");
    assert_eq!(
        format_managed_block(&vec![entry("1.2.3.4", "a")]),
        "# --- ainv-helper begin ---\n1.2.3.4 a\n# --- ainv-helper end ---"
    );
}

#[test]
fn remove_block_without_end_marker_cuts_to_end() {
    let input = "a\n# --- ainv-helper begin ---\nb\n";
    assert_eq!(remove_managed_block(input), "a");
    assert_eq!(remove_managed_block("plain\n"), "plain\n");
}

#[test]
fn remove_block_joins_text_around_it() {
    let input = "a  \n# --- ainv-helper begin ---\nx\n# --- ainv-helper end ---\n\n\nb\n";
    assert_eq!(remove_managed_block(input), "a\nb\n");
}

#[test]
fn apply_refuses_when_disabled() {
    let cfg = HostsConfig { enabled: false, entries: vec![entry("1.2.3.4", "a")] };
    assert_eq!(apply(&cfg, "x\n").unwrap_err(), HostsError::Disabled);
    assert_eq!(HostsError::Disabled.message(), "hosts management is disabled in config");
}

#[test]
fn apply_then_clear_restores_text() {
    let cfg = HostsConfig { enabled: true, entries: vec![entry("1.2.3.4", "a.test")] };
    let before = "127.0.0.1 localhost\n";
    let applied = apply(&cfg, before).unwrap();
    assert_eq!(clear_managed(&applied), "127.0.0.1 localhost");
    let again = apply(&cfg, &applied).unwrap();
    assert_eq!(again, applied);
}

#[test]
fn toggle_twice_restores_text() {
    let before = "127.0.0.1 localhost\n\n";
    let (on, enabled) = toggle_ios_sim_route(before);
    assert!(enabled);
    assert!(is_ios_sim_block_present(&on));
    let (off, enabled_again) = toggle_ios_sim_route(&on);
    assert!(!enabled_again);
    assert_eq!(off, "127.0.0.1 localhost\n");
}

#[test]
fn append_to_empty_text() {
    assert_eq!(append_ios_sim_block("  \n"), ios_sim_block());
}

#[test]
fn remove_without_route_keeps_text() {
    assert_eq!(remove_ios_sim_block("a\n\n"), "a\n\n");
}

#[test]
fn route_needs_all_three_markers() {
    assert!(!is_ios_sim_block_present("# BEGIN AMIO IOS SIMULATOR\n# END AMIO IOS SIMULATOR\n"));
    assert!(!is_ios_sim_route_active(None));
    assert!(is_ios_sim_route_active(Some(&ios_sim_block())));
}

#[test]
fn shell_words() {
    assert_eq!(shell_escape("/tmp/hosts.staging"), "/tmp/hosts.staging");
    assert_eq!(shell_escape("/Users/a b/x"), "'/Users/a b/x'");
    assert_eq!(shell_escape("/it's"), "'/it'\\''s'");
}

#[test]
fn install_command_text() {
    assert_eq!(
        install_command("/Users/me/Library/Application Support/ainv-helper/hosts.staging"),
        "cp /etc/hosts /etc/hosts.ainv-backup.$(date +%s) 2>/dev/null; cp '/Users/me/Library/Application Support/ainv-helper/hosts.staging' /etc/hosts"
    );
}

#[test]
fn staging_path_is_in_config_dir() {
    let p = staging_path();
    assert!(p.ends_with("/ainv-helper/hosts.staging"));
}

#[test]
fn toggle_reports_new_state() {
    let with_route = format!("127.0.0.1 localhost\n{}::1 ip6\n", ios_sim_block());
    let (off, enabled) = toggle_ios_sim_route(&with_route);
    assert!(!enabled);
    assert!(!is_ios_sim_block_present(&off));
    assert_eq!(off, "127.0.0.1 localhost\n::1 ip6\n");
    // With two route blocks only the first is removed.
    let twice = format!("{}{}", ios_sim_block(), ios_sim_block());
    let (still, enabled) = toggle_ios_sim_route(&twice);
    assert!(!enabled);
    assert!(is_ios_sim_block_present(&still));
}

#[test]
fn clear_without_block_keeps_text() {
    let text = "127.0.0.1 localhost\n\n";
    assert_eq!(clear_managed(text), text);
}
