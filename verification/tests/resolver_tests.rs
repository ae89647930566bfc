use portwatcher::resolver::{
    get_username, parse_socket_inode, parse_status_uid, username_or_uid, ProcessResolver,
};
use portwatcher::types::ProcRecord;

fn record(pid: u32, comm: &str, uid: u32, inodes: &[u64]) -> ProcRecord {
    ProcRecord {
        pid,
        comm: format!("{}\n", comm),
        status: format!("Name:\t{}\nUid:\t{}\t{}\t{}\t{}\n", comm, uid, uid, uid, uid),
        fd_targets: inodes.iter().map(|i| format!("socket:[{}]", i)).collect(),
    }
}

#[test]
fn test_resolver_creation() {
    // This test just verifies the resolver can be created
    // Actual socket resolution depends on the snapshot handed in
    let resolver = ProcessResolver::new(Vec::new());
    assert!(resolver.entries.is_empty());
}

#[test]
fn test_get_username() {
    // UID 0 should be root on most systems
    let username = get_username(0);
    assert_eq!(username, "root");
}

#[test]
fn test_socket_pattern_parsing() {
    // Test the socket:[inode] pattern parsing logic
    let target = "socket:[12345]";
    let inode: Option<u64> = target
        .strip_prefix("socket:[")
        .and_then(|s| s.strip_suffix(']'))
        .and_then(|s| s.parse().ok());

    assert_eq!(inode, Some(12345));
}

#[test]
fn test_invalid_socket_pattern() {
    let target = "pipe:[12345]";
    let inode: Option<u64> = target
        .strip_prefix("socket:[")
        .and_then(|s| s.strip_suffix(']'))
        .and_then(|s| s.parse().ok());

    assert_eq!(inode, None);
}

#[test]
fn test_parse_socket_inode_shapes() {
    assert_eq!(parse_socket_inode("socket:[12345]"), Some(12345));
    assert_eq!(parse_socket_inode("pipe:[12345]"), None);
    assert_eq!(parse_socket_inode("socket:[]"), None);
    assert_eq!(parse_socket_inode("socket:[12x45]"), None);
    assert_eq!(parse_socket_inode("socket:[12345"), None);
    assert_eq!(parse_socket_inode(""), None);
    // over the 64-bit range: skipped, not an error
    assert_eq!(parse_socket_inode("socket:[99999999999999999999]"), None);
}

#[test]
fn test_parse_status_uid_lines() {
    assert_eq!(parse_status_uid("Name:\tfoo\nUid:\t1000\t1000\t1000\t1000\n"), Some(1000));
    assert_eq!(parse_status_uid("Name:\tfoo\nGid:\t1000\n"), None);
    // the first Uid line with a second column decides, even if it fails to parse
    assert_eq!(parse_status_uid("Uid:\tabc\t0\nUid:\t5\t5\n"), None);
    // a bare "Uid:" line without a second column is passed over
    assert_eq!(parse_status_uid("Uid:\nUid:\t7\t7\n"), Some(7));
    assert_eq!(parse_status_uid(""), None);
}

#[test]
fn test_username_fallback() {
    assert_eq!(username_or_uid(None, 12345), "12345");
    assert_eq!(username_or_uid(Some(String::from("alice")), 12345), "alice");
}

#[test]
fn test_resolve_known_inode() {
    let resolver = ProcessResolver::new(vec![
        record(10, "node", 0, &[111, 222]),
        record(20, "python3", 0, &[333]),
    ]);
    let info = resolver.resolve(222).unwrap();
    assert_eq!(info.pid, 10);
    assert_eq!(info.name, "node");
    assert_eq!(info.user, "root");
    let info = resolver.resolve(333).unwrap();
    assert_eq!(info.pid, 20);
    assert_eq!(info.name, "python3");
}

#[test]
fn test_resolve_unknown_inode() {
    let resolver = ProcessResolver::new(vec![record(10, "node", 0, &[111])]);
    assert!(resolver.resolve(999).is_none());
}

#[test]
fn test_resolve_last_writer_wins() {
    // two records claim one inode: the later one wins
    let resolver = ProcessResolver::new(vec![
        record(10, "first", 0, &[111]),
        record(20, "second", 0, &[111]),
    ]);
    let info = resolver.resolve(111).unwrap();
    assert_eq!(info.pid, 20);
    assert_eq!(info.name, "second");
}

#[test]
fn test_resolve_unreadable_uid() {
    // a record whose status text has no readable uid resolves to nothing
    let rec = ProcRecord {
        pid: 10,
        comm: String::from("node\n"),
        status: String::from("Name:\tnode\n"),
        fd_targets: vec![String::from("socket:[111]")],
    };
    let resolver = ProcessResolver::new(vec![rec]);
    assert!(resolver.resolve(111).is_none());
}

#[test]
fn test_resolve_trims_name() {
    let rec = ProcRecord {
        pid: 10,
        comm: String::from("  spaced name \n"),
        status: String::from("Uid:\t0\t0\t0\t0\n"),
        fd_targets: vec![String::from("socket:[111]")],
    };
    let resolver = ProcessResolver::new(vec![rec]);
    assert_eq!(resolver.resolve(111).unwrap().name, "spaced name");
}
