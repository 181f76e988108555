use network_scanner::ports::{port_list, NUM_PORTS};
use network_scanner::resolve::{clean_target, resolve_literal, IpAddress};
use network_scanner::scan::{scan_target, ScanOutcome, ScanResult};
use network_scanner::state::{Action, Key, ScannerState};

fn fixed_ports() -> Vec<u16> {
    vec![21, 22, 23, 25, 53, 80, 110, 143, 443, 3000, 5000, 8000, 8080]
}

fn state_with_results(target: &str, outcomes: Vec<bool>) -> ScannerState {
    let mut state = ScannerState::new();
    for c in target.chars() {
        state.handle_key(Key::Character(c));
    }
    let outcome = ScanOutcome::Probed(outcomes);
    state.scan(&outcome);
    state
}

#[test]
fn port_list_is_the_fixed_thirteen() {
    let ports = port_list();
    assert_eq!(ports, fixed_ports());
    assert_eq!(ports.len(), NUM_PORTS);
}

#[test]
fn resolve_plain_v4_literal() {
    assert_eq!(resolve_literal("192.0.2.1"), Some(IpAddress::V4(192, 0, 2, 1)));
}

#[test]
fn resolve_https_prefixed_v4_literal() {
    assert_eq!(resolve_literal("https://192.0.2.1"), Some(IpAddress::V4(192, 0, 2, 1)));
}

#[test]
fn resolve_http_prefixed_v4_literal() {
    assert_eq!(resolve_literal("http://10.0.0.254"), Some(IpAddress::V4(10, 0, 0, 254)));
}

#[test]
fn resolve_trims_whitespace_after_scheme() {
    assert_eq!(resolve_literal("http://192.0.2.7 "), Some(IpAddress::V4(192, 0, 2, 7)));
    assert_eq!(resolve_literal("  127.0.0.1\t"), Some(IpAddress::V4(127, 0, 0, 1)));
}

#[test]
fn scheme_after_leading_whitespace_is_not_stripped() {
    // The scheme check runs before trimming, so a space before `http://`
    // keeps the prefix in place and the result is no literal.
    assert_eq!(resolve_literal(" http://192.0.2.1"), None);
    assert_eq!(clean_target(" http://192.0.2.1"), "http://192.0.2.1");
}

#[test]
fn clean_target_strips_scheme_then_trims() {
    assert_eq!(clean_target("https://example.com "), "example.com");
    assert_eq!(clean_target("http://example.com"), "example.com");
    assert_eq!(clean_target("  plain-host  "), "plain-host");
}

#[test]
fn rejects_malformed_v4_literals() {
    assert_eq!(resolve_literal("256.0.0.1"), None);
    assert_eq!(resolve_literal("01.2.3.4"), None);
    assert_eq!(resolve_literal("1.2.3"), None);
    assert_eq!(resolve_literal("1.2.3.4.5"), None);
    assert_eq!(resolve_literal("1.2.3.4x"), None);
    assert_eq!(resolve_literal(""), None);
    assert_eq!(resolve_literal("this-host-does-not-exist.invalid"), None);
}

#[test]
fn resolve_v6_literals() {
    assert_eq!(resolve_literal("::1"), Some(IpAddress::V6(0, 0, 0, 0, 0, 0, 0, 1)));
    assert_eq!(resolve_literal("::"), Some(IpAddress::V6(0, 0, 0, 0, 0, 0, 0, 0)));
    assert_eq!(
        resolve_literal("1:2:3:4:5:6:7:8"),
        Some(IpAddress::V6(1, 2, 3, 4, 5, 6, 7, 8))
    );
    assert_eq!(
        resolve_literal("2001:db8::8a2e:370:7334"),
        Some(IpAddress::V6(0x2001, 0xdb8, 0, 0, 0, 0x8a2e, 0x370, 0x7334))
    );
    assert_eq!(
        resolve_literal("fe80::"),
        Some(IpAddress::V6(0xfe80, 0, 0, 0, 0, 0, 0, 0))
    );
    assert_eq!(
        resolve_literal("https://::1"),
        Some(IpAddress::V6(0, 0, 0, 0, 0, 0, 0, 1))
    );
}

#[test]
fn resolve_v6_with_embedded_v4_tail() {
    assert_eq!(
        resolve_literal("::ffff:192.0.2.128"),
        Some(IpAddress::V6(0, 0, 0, 0, 0, 0xffff, 0xc000, 0x0280))
    );
    assert_eq!(
        resolve_literal("1:2:3:4:5:6:192.0.2.1"),
        Some(IpAddress::V6(1, 2, 3, 4, 5, 6, 0xc000, 0x0201))
    );
}

#[test]
fn resolve_v6_embedded_v4_corners() {
    assert_eq!(resolve_literal("::0.0.0.0"), Some(IpAddress::V6(0, 0, 0, 0, 0, 0, 0, 0)));
    assert_eq!(
        resolve_literal("0:1:2:3:4:5:6.7.8.9"),
        Some(IpAddress::V6(0, 1, 2, 3, 4, 5, 0x0607, 0x0809))
    );
    assert_eq!(
        resolve_literal("1::1.2.3.4"),
        Some(IpAddress::V6(1, 0, 0, 0, 0, 0, 0x0102, 0x0304))
    );
    assert_eq!(resolve_literal("::1.2.3"), None);
    assert_eq!(resolve_literal("1.2.3.4:80"), None);
}

#[test]
fn rejects_malformed_v6_literals() {
    assert_eq!(resolve_literal("1::2::3"), None);
    assert_eq!(resolve_literal(":::"), None);
    assert_eq!(resolve_literal("12345::"), None);
    assert_eq!(resolve_literal("1:2:3:4:5:6:7:8:9"), None);
    assert_eq!(resolve_literal("1:2:3:4:5:6:7:8::"), None);
    assert_eq!(resolve_literal("1:2:3:4:5:6:7"), None);
    assert_eq!(resolve_literal("192.0.2.1::1"), None);
    assert_eq!(resolve_literal("g::1"), None);
}

#[test]
fn resolve_v4_boundary_values() {
    assert_eq!(resolve_literal("0.0.0.0"), Some(IpAddress::V4(0, 0, 0, 0)));
    assert_eq!(
        resolve_literal("255.255.255.255"),
        Some(IpAddress::V4(255, 255, 255, 255))
    );
    assert_eq!(resolve_literal("0.1.2.3"), Some(IpAddress::V4(0, 1, 2, 3)));
    assert_eq!(resolve_literal("1.2.3.04"), None);
    assert_eq!(resolve_literal("00.1.2.3"), None);
    assert_eq!(resolve_literal("1.2.3."), None);
    assert_eq!(resolve_literal(".1.2.3.4"), None);
    assert_eq!(resolve_literal("0x1.2.3.4"), None);
}

#[test]
fn resolve_v6_gap_positions_and_case() {
    assert_eq!(
        resolve_literal("::1:2:3:4:5:6:7"),
        Some(IpAddress::V6(0, 1, 2, 3, 4, 5, 6, 7))
    );
    assert_eq!(
        resolve_literal("1:2::3:4"),
        Some(IpAddress::V6(1, 2, 0, 0, 0, 0, 3, 4))
    );
    assert_eq!(
        resolve_literal("0:0:0:0:0:0:0:0"),
        Some(IpAddress::V6(0, 0, 0, 0, 0, 0, 0, 0))
    );
    assert_eq!(
        resolve_literal("ABCD:EF01::"),
        Some(IpAddress::V6(0xabcd, 0xef01, 0, 0, 0, 0, 0, 0))
    );
    assert_eq!(
        resolve_literal("0001:0002::000f"),
        Some(IpAddress::V6(1, 2, 0, 0, 0, 0, 0, 0xf))
    );
    assert_eq!(resolve_literal(" ::1 "), Some(IpAddress::V6(0, 0, 0, 0, 0, 0, 0, 1)));
    // The gap must stand for at least one zero group.
    assert_eq!(resolve_literal("1:2:3:4:5:6:7::8"), None);
    // An embedded v4 part may not be followed by more groups.
    assert_eq!(resolve_literal("::1.2.3.4:5"), None);
    assert_eq!(resolve_literal("1:2:3:1.2.3.4:5:6"), None);
}

#[test]
fn scan_target_keeps_port_order_and_outcomes() {
    let target = String::from("example.com");
    let mut outcomes = vec![false; 13];
    outcomes[5] = true; // port 80
    outcomes[8] = true; // port 443
    let results: Vec<ScanResult> = scan_target(&target, &outcomes);
    assert_eq!(results.len(), 13);
    let ports = fixed_ports();
    for (i, r) in results.iter().enumerate() {
        assert_eq!(r.address, "example.com");
        assert_eq!(r.port, ports[i]);
        assert_eq!(r.open, outcomes[i]);
    }
}

#[test]
fn unreachable_target_scans_all_closed_in_order() {
    let target = String::from("203.0.113.1");
    let outcomes = vec![false; 13];
    let results = scan_target(&target, &outcomes);
    assert_eq!(results.len(), 13);
    let ports = fixed_ports();
    for (i, r) in results.iter().enumerate() {
        assert_eq!(r.port, ports[i]);
        assert!(!r.open);
    }
}

#[test]
fn scan_with_empty_target_changes_nothing() {
    let mut state = state_with_results("somewhere", vec![true; 13]);
    // Erase the target, keeping the stale results, then ask for a scan.
    for _ in 0.."somewhere".len() {
        state.handle_key(Key::Backspace);
    }
    state.handle_key(Key::Down);
    assert_eq!(state.target, "");
    let before_results: Vec<u16> = state.scan_result.iter().map(|r| r.port).collect();
    let before_open: Vec<bool> = state.scan_result.iter().map(|r| r.open).collect();
    let before_selection = state.selection;
    state.scan(&ScanOutcome::ResolutionFailed);
    state.scan(&ScanOutcome::Probed(vec![true; 13]));
    let after_results: Vec<u16> = state.scan_result.iter().map(|r| r.port).collect();
    let after_open: Vec<bool> = state.scan_result.iter().map(|r| r.open).collect();
    assert_eq!(after_results, before_results);
    assert_eq!(after_open, before_open);
    assert_eq!(state.selection, before_selection);
}

#[test]
fn successful_scan_replaces_results_and_clears_selection() {
    let mut state = state_with_results("host", vec![false; 13]);
    state.handle_key(Key::Down);
    assert_eq!(state.selection, Some(0));
    let mut outcomes = vec![false; 13];
    outcomes[0] = true;
    state.scan(&ScanOutcome::Probed(outcomes));
    assert_eq!(state.selection, None);
    assert_eq!(state.scan_result.len(), 13);
    let ports = fixed_ports();
    for (i, r) in state.scan_result.iter().enumerate() {
        assert_eq!(r.port, ports[i]);
        assert_eq!(r.address, "host");
    }
    assert!(state.scan_result[0].open);
    assert!(!state.scan_result[1].open);
}

#[test]
fn resolution_failure_empties_results_without_fault() {
    let mut state = state_with_results("this-host-does-not-exist.invalid", vec![true; 13]);
    assert_eq!(state.scan_result.len(), 13);
    state.scan(&ScanOutcome::ResolutionFailed);
    assert!(state.scan_result.is_empty());
    assert_eq!(state.selection, None);
}

#[test]
fn typing_appends_and_backspace_removes() {
    let mut state = ScannerState::new();
    for c in "ab".chars() {
        let a = state.handle_key(Key::Character(c));
        assert_eq!(a, Action::Idle);
    }
    assert_eq!(state.target, "ab");
    state.handle_key(Key::Backspace);
    assert_eq!(state.target, "a");
    state.handle_key(Key::Backspace);
    assert_eq!(state.target, "");
    // Backspace on an empty target is a no-op.
    state.handle_key(Key::Backspace);
    assert_eq!(state.target, "");
}

#[test]
fn append_then_equal_backspaces_round_trips() {
    let mut state = ScannerState::new();
    for c in "base".chars() {
        state.handle_key(Key::Character(c));
    }
    let typed = "extra.chars 123";
    for c in typed.chars() {
        state.handle_key(Key::Character(c));
    }
    for _ in 0..typed.chars().count() {
        state.handle_key(Key::Backspace);
    }
    assert_eq!(state.target, "base");
}

#[test]
fn selection_moves_clamp_at_both_ends() {
    let mut state = state_with_results("host", vec![false; 13]);
    assert_eq!(state.selection, None);
    // First "next" lands on the first entry; repeats never reach the length.
    for _ in 0..20 {
        state.handle_key(Key::Down);
        let sel = state.selection.unwrap();
        assert!(sel < state.scan_result.len());
    }
    assert_eq!(state.selection, Some(12));
    // Repeated "previous" never goes below zero.
    for _ in 0..20 {
        state.handle_key(Key::Up);
    }
    assert_eq!(state.selection, Some(0));
}

#[test]
fn select_previous_from_nothing_starts_at_last() {
    let mut state = state_with_results("host", vec![false; 13]);
    state.handle_key(Key::Up);
    assert_eq!(state.selection, Some(12));
}

#[test]
fn select_next_from_nothing_starts_at_first() {
    let mut state = state_with_results("host", vec![false; 13]);
    state.handle_key(Key::Down);
    assert_eq!(state.selection, Some(0));
}

#[test]
fn selection_ignored_while_results_empty() {
    let mut state = ScannerState::new();
    state.handle_key(Key::Character('x'));
    state.handle_key(Key::Up);
    assert_eq!(state.selection, None);
    state.handle_key(Key::Down);
    assert_eq!(state.selection, None);
}

#[test]
fn enter_asks_for_a_scan_and_esc_quits() {
    let mut state = ScannerState::new();
    assert_eq!(state.handle_key(Key::Enter), Action::RunScan);
    assert_eq!(state.handle_key(Key::Esc), Action::Quit);
    assert_eq!(state.handle_key(Key::Other), Action::Idle);
}

#[test]
fn initial_state_is_empty() {
    let state = ScannerState::new();
    assert_eq!(state.target, "");
    assert!(state.scan_result.is_empty());
    assert_eq!(state.selection, None);
}
