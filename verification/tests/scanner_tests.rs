use portwatcher::scanner::PortScanner;
use portwatcher::types::{Protocol, ScanError};

#[test]
fn test_hex_to_ip_localhost() {
    // 0100007F = 127.0.0.1 in little-endian
    let ip = PortScanner::hex_to_ip("0100007F").unwrap();
    assert_eq!(ip, "127.0.0.1");
}

#[test]
fn test_hex_to_ip_any() {
    // 00000000 = 0.0.0.0
    let ip = PortScanner::hex_to_ip("00000000").unwrap();
    assert_eq!(ip, "0.0.0.0");
}

#[test]
fn test_hex_to_port() {
    // 1F90 = 8080
    let port = PortScanner::hex_to_port("1F90").unwrap();
    assert_eq!(port, 8080);

    // 0050 = 80
    let port = PortScanner::hex_to_port("0050").unwrap();
    assert_eq!(port, 80);
}

#[test]
fn test_parse_address_port() {
    let (addr, port) = PortScanner::parse_address_port("0100007F:1F90").unwrap();
    assert_eq!(addr, "127.0.0.1");
    assert_eq!(port, 8080);
}

#[test]
fn test_parse_tcp_line_listen() {
    let line = "   0: 0100007F:1F90 00000000:0000 0A 00000000:00000000 00:00000000 00000000  1000        0 12345 1 0000000000000000 100 0 0 10 0";
    let entry = PortScanner::parse_line(line, Protocol::Tcp, true)
        .unwrap()
        .unwrap();

    assert_eq!(entry.local_address, "127.0.0.1");
    assert_eq!(entry.local_port, 8080);
    assert_eq!(entry.inode, 12345);
    assert_eq!(entry.protocol, Protocol::Tcp);
}

#[test]
fn test_parse_tcp_line_non_listen() {
    // State 01 = ESTABLISHED, should be filtered out
    let line = "   0: 0100007F:1F90 00000000:0000 01 00000000:00000000 00:00000000 00000000  1000        0 12345";
    let entry = PortScanner::parse_line(line, Protocol::Tcp, true).unwrap();
    assert!(entry.is_none());
}

#[test]
fn test_parse_udp_line() {
    // UDP uses state 07 for bound sockets
    let line = "   0: 00000000:0035 00000000:0000 07 00000000:00000000 00:00000000 00000000     0        0 11111 1 0000000000000000 0";
    let entry = PortScanner::parse_line(line, Protocol::Udp, false)
        .unwrap()
        .unwrap();

    assert_eq!(entry.local_address, "0.0.0.0");
    assert_eq!(entry.local_port, 53); // DNS port
    assert_eq!(entry.inode, 11111);
    assert_eq!(entry.protocol, Protocol::Udp);
}

#[test]
fn test_hex_to_port_invalid() {
    match PortScanner::hex_to_port("GG") {
        Err(ScanError::ParseError(f)) => assert_eq!(f, "GG"),
        other => panic!("expected a parse error, got {:?}", other),
    }
    assert!(PortScanner::hex_to_port("").is_err());
    // the field is exactly four digits wide
    assert!(PortScanner::hex_to_port("10000").is_err());
    assert!(PortScanner::hex_to_port("050").is_err());
    assert!(PortScanner::hex_to_port("00001F90").is_err());
}

#[test]
fn test_hex_to_ip_invalid() {
    // wrong width
    match PortScanner::hex_to_ip("0100007") {
        Err(ScanError::ParseError(f)) => assert_eq!(f, "0100007"),
        other => panic!("expected a parse error, got {:?}", other),
    }
    // a non-hex digit
    assert!(PortScanner::hex_to_ip("0100007G").is_err());
}

#[test]
fn test_parse_address_port_no_colon() {
    assert!(PortScanner::parse_address_port("0100007F1F90").is_err());
    assert!(PortScanner::parse_address_port("01:00:00").is_err());
}

#[test]
fn test_parse_line_short_line_skipped() {
    // fewer than 10 whitespace-separated fields
    let line = "   0: 0100007F:1F90 00000000:0000 0A 00000000:00000000";
    let entry = PortScanner::parse_line(line, Protocol::Tcp, true).unwrap();
    assert!(entry.is_none());
}

#[test]
fn test_parse_line_zero_port_skipped() {
    let line = "   0: 0100007F:0000 00000000:0000 0A 00000000:00000000 00:00000000 00000000  1000        0 12345";
    let entry = PortScanner::parse_line(line, Protocol::Tcp, true).unwrap();
    assert!(entry.is_none());
}

#[test]
fn test_parse_line_zero_inode_skipped() {
    let line = "   0: 0100007F:1F90 00000000:0000 0A 00000000:00000000 00:00000000 00000000  1000        0 0";
    let entry = PortScanner::parse_line(line, Protocol::Tcp, true).unwrap();
    assert!(entry.is_none());
}

#[test]
fn test_parse_line_bad_inode_is_error() {
    // the line passes the shape and state gates, then the inode fails to decode
    let line = "   0: 0100007F:1F90 00000000:0000 0A 00000000:00000000 00:00000000 00000000  1000        0 notanumber";
    match PortScanner::parse_line(line, Protocol::Tcp, true) {
        Err(ScanError::ParseError(f)) => assert_eq!(f, "notanumber"),
        other => panic!("expected a parse error, got {:?}", other),
    }
}

#[test]
fn test_parse_proc_net_skips_header() {
    let content = "  sl  local_address rem_address   st tx_queue rx_queue tr tm->when retrnsmt   uid  timeout inode\n   0: 0100007F:1F90 00000000:0000 0A 00000000:00000000 00:00000000 00000000  1000        0 12345\n";
    let entries = PortScanner::parse_proc_net(content, Protocol::Tcp, true).unwrap();
    assert_eq!(entries.len(), 1);
    assert_eq!(entries[0].local_port, 8080);
}

#[test]
fn test_scan_all_combines_tables() {
    let tcp = "header\n   0: 0100007F:1F90 00000000:0000 0A 00000000:00000000 00:00000000 00000000  1000        0 12345\n   1: 0100007F:1F90 00000000:0000 01 00000000:00000000 00:00000000 00000000  1000        0 12346\n";
    let udp = "header\n   0: 00000000:0035 00000000:0000 07 00000000:00000000 00:00000000 00000000     0        0 11111\n";
    let entries = PortScanner::scan_all(tcp, udp).unwrap();
    assert_eq!(entries.len(), 2);
    assert_eq!(entries[0].protocol, Protocol::Tcp);
    assert_eq!(entries[0].local_port, 8080);
    assert_eq!(entries[1].protocol, Protocol::Udp);
    assert_eq!(entries[1].local_port, 53);
}

#[test]
fn test_scan_range_filters() {
    let tcp = "header\n   0: 0100007F:1F90 00000000:0000 0A 00000000:00000000 00:00000000 00000000  1000        0 12345\n";
    let udp = "header\n   0: 00000000:0035 00000000:0000 07 00000000:00000000 00:00000000 00000000     0        0 11111\n";
    let entries = PortScanner::scan_range(1, 1000, tcp, udp).unwrap();
    assert_eq!(entries.len(), 1);
    assert_eq!(entries[0].local_port, 53);
    let all = PortScanner::scan_range(0, 65535, tcp, udp).unwrap();
    assert_eq!(all.len(), 2);
}

#[test]
fn test_scan_error_message() {
    let e = ScanError::ParseError(String::from("xyz"));
    assert_eq!(e.message(), "Failed to parse line: xyz");
    let io = ScanError::IoError {
        path: String::from("/proc/net/tcp"),
        message: String::from("denied"),
    };
    assert_eq!(io.message(), "Failed to read /proc/net/tcp: denied");
}
