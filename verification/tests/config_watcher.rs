use mica::config::watcher::event_targets_config;

fn strings(paths: &[&str]) -> Vec<String> {
    paths.iter().map(|path| path.to_string()).collect()
}

#[test]
fn config_file_changes_are_recognised() {
    let targets = strings(&["/home/u/.config/mica/config.toml", "/work/.mica/config.toml"]);
    assert!(event_targets_config(Some(strings(&["/home/u/.config/mica/config.toml"])), &targets));
    assert!(event_targets_config(Some(strings(&["/work/.mica//config.toml"])), &targets));
    assert!(event_targets_config(Some(strings(&["/tmp/x", "/work/.mica"])), &targets));
    assert!(event_targets_config(Some(strings(&["/home/u/.config"])), &targets));
}

#[test]
fn unrelated_changes_and_watcher_errors_are_ignored() {
    let targets = strings(&["/home/u/.config/mica/config.toml"]);
    assert!(!event_targets_config(Some(strings(&["/home/u/.config/mica/keys.toml"])), &targets));
    assert!(!event_targets_config(Some(strings(&["/home/u/.config/mica/config.toml.bak"])), &targets));
    assert!(!event_targets_config(Some(Vec::new()), &targets));
    assert!(!event_targets_config(None, &targets));
    assert!(!event_targets_config(Some(strings(&["/home/u/.config/mica/config.toml"])), &Vec::new()));
}

#[test]
fn nameless_paths_with_the_same_parent_count_as_the_same_entry() {
    assert!(event_targets_config(Some(strings(&["."])), &strings(&[".."])));
    assert!(!event_targets_config(Some(strings(&["a/.."])), &strings(&["b/.."])));
}
