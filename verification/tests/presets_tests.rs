use portwatcher::presets::get_builtin_presets;

#[test]
fn test_builtin_presets_not_empty() {
    let presets = get_builtin_presets();
    assert!(!presets.is_empty());
}

#[test]
fn test_preset_ids_unique() {
    let presets = get_builtin_presets();
    let mut ids: Vec<_> = presets.iter().map(|p| &p.id).collect();
    let original_len = ids.len();
    ids.sort();
    ids.dedup();
    assert_eq!(ids.len(), original_len, "Preset IDs must be unique");
}

#[test]
fn test_web_preset() {
    let presets = get_builtin_presets();
    let web = presets.iter().find(|p| p.id == "web").unwrap();
    assert!(web.ports.contains(&80));
    assert!(web.ports.contains(&443));
    assert!(web.ports.contains(&8080));
}

#[test]
fn test_dev_preset_has_ranges() {
    let presets = get_builtin_presets();
    let dev = presets.iter().find(|p| p.id == "dev").unwrap();
    assert!(!dev.ranges.is_empty());
    assert!(dev.ranges.iter().any(|r| r.start == 3000 && r.end == 3010));
}

#[test]
fn test_preset_count_and_order() {
    let presets = get_builtin_presets();
    let ids: Vec<&str> = presets.iter().map(|p| p.id.as_str()).collect();
    assert_eq!(
        ids,
        vec!["web", "database", "dev", "system", "high", "messaging", "container", "network"]
    );
}
