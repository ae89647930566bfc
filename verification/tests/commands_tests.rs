use portwatcher::{get_ports, get_presets, get_tray_stats, kill_process, scan_port_range};
use portwatcher::types::{KillResult, ProcRecord, Protocol};

fn record(pid: u32, comm: &str, inodes: &[u64]) -> ProcRecord {
    ProcRecord {
        pid,
        comm: format!("{}\n", comm),
        status: String::from("Uid:\t0\t0\t0\t0\n"),
        fd_targets: inodes.iter().map(|i| format!("socket:[{}]", i)).collect(),
    }
}

const TCP: &str = "  sl  local_address rem_address   st tx_queue rx_queue tr tm->when retrnsmt   uid  timeout inode\n   0: 0100007F:2328 00000000:0000 0A 00000000:00000000 00:00000000 00000000  1000        0 111\n   1: 00000000:0050 00000000:0000 0A 00000000:00000000 00:00000000 00000000  1000        0 222\n";

const UDP: &str = "  sl  local_address rem_address   st tx_queue rx_queue tr tm->when retrnsmt   uid  timeout inode\n   0: 00000000:0035 00000000:0000 07 00000000:00000000 00:00000000 00000000     0        0 333\n";

#[test]
fn test_get_ports_returns_list() {
    // This test verifies get_ports doesn't fail on a well-formed snapshot
    // Actual ports depend on the snapshot handed in
    let result = get_ports(TCP, UDP, vec![record(10, "node", &[111, 222, 333])]);
    assert!(result.is_ok());
}

#[test]
fn test_kill_process_invalid() {
    let result = kill_process(999999999);
    matches!(result, KillResult::ProcessNotFound { .. });
}

#[test]
fn test_get_ports_sorted_by_port() {
    // table order is 9000, 80, 53; output must be sorted by port
    let ports = get_ports(TCP, UDP, vec![record(10, "node", &[111, 222, 333])]).unwrap();
    assert_eq!(ports.len(), 3);
    assert_eq!(ports[0].port, 53);
    assert_eq!(ports[1].port, 80);
    assert_eq!(ports[2].port, 9000);
    assert_eq!(ports[0].protocol, Protocol::Udp);
    assert_eq!(ports[2].address, "127.0.0.1");
    assert_eq!(ports[2].process_name, "node");
    assert_eq!(ports[2].user, "root");
}

#[test]
fn test_get_ports_drops_unresolved() {
    // only inode 222 belongs to a known process
    let ports = get_ports(TCP, UDP, vec![record(10, "node", &[222])]).unwrap();
    assert_eq!(ports.len(), 1);
    assert_eq!(ports[0].port, 80);
    assert_eq!(ports[0].pid, 10);
}

#[test]
fn test_get_ports_parse_error_message() {
    let bad = "header\n   0: 0100007F:1F90 00000000:0000 0A 00000000:00000000 00:00000000 00000000  1000        0 nonsense\n";
    let err = get_ports(bad, UDP, Vec::new()).unwrap_err();
    assert_eq!(err, "Failed to parse line: nonsense");
}

#[test]
fn test_scan_port_range_inclusive() {
    let procs = vec![record(10, "node", &[111, 222, 333])];
    let ports = scan_port_range(53, 80, TCP, UDP, procs).unwrap();
    assert_eq!(ports.len(), 2);
    assert_eq!(ports[0].port, 53);
    assert_eq!(ports[1].port, 80);
}

#[test]
fn test_get_tray_stats_counts() {
    // one pid owns all three sockets: process_count collapses to 1
    let stats = get_tray_stats(TCP, UDP, vec![record(10, "node", &[111, 222, 333])]).unwrap();
    assert_eq!(stats.total_ports, 3);
    assert_eq!(stats.tcp_count, 2);
    assert_eq!(stats.udp_count, 1);
    assert_eq!(stats.process_count, 1);
}

#[test]
fn test_get_tray_stats_distinct_pids() {
    let procs = vec![
        record(10, "node", &[111, 222]),
        record(20, "dns", &[333]),
    ];
    let stats = get_tray_stats(TCP, UDP, procs).unwrap();
    assert_eq!(stats.total_ports, 3);
    assert_eq!(stats.process_count, 2);
}

#[test]
fn test_get_presets_matches_builtins() {
    let presets = get_presets();
    assert_eq!(presets.len(), 8);
    assert_eq!(presets[0].id, "web");
}

#[test]
fn test_protocol_display() {
    assert_eq!(Protocol::Tcp.label(), "TCP");
    assert_eq!(Protocol::Udp.label(), "UDP");
}

#[test]
fn test_stable_order_for_equal_ports() {
    // two TCP sockets on one port: discovery order is kept
    let tcp = "header\n   0: 0100007F:0050 00000000:0000 0A 00000000:00000000 00:00000000 00000000  1000        0 111\n   1: 00000000:0050 00000000:0000 0A 00000000:00000000 00:00000000 00000000  1000        0 222\n";
    let udp = "header\n";
    let procs = vec![record(10, "first", &[111]), record(20, "second", &[222])];
    let ports = get_ports(tcp, udp, procs).unwrap();
    assert_eq!(ports.len(), 2);
    assert_eq!(ports[0].process_name, "first");
    assert_eq!(ports[1].process_name, "second");
}
