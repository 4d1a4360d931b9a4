use stickle::env::{
    compare, drop_empty, expand, joined, lookup, normalise, push_once, references, registry_values,
    EnvSnapshot, FALLBACK_SOURCE, PROCESS_SOURCE, REGISTRY_SOURCE,
};

fn strings(items: &[&str]) -> Vec<String> {
    items.iter().map(|s| s.to_string()).collect()
}

#[test]
fn empty_entries_are_dropped() {
    assert_eq!(drop_empty(&strings(&["", "/bin", "", "/usr/bin", ""])), strings(&["/bin", "/usr/bin"]));
}

#[test]
fn normalise_lowers_ascii_and_unifies_slashes() {
    assert_eq!(normalise("C:/Program Files/LLVM/bin\\/"), "c:\\program files\\llvm\\bin");
    assert_eq!(normalise("C:\\ÄBC\\"), "c:\\Äbc");
    assert_eq!(normalise("\\\\"), "");
}

#[test]
fn push_once_keeps_entries_distinct() {
    let mut v = strings(&["a"]);
    push_once(&mut v, "b".to_string());
    push_once(&mut v, "a".to_string());
    push_once(&mut v, "b".to_string());
    assert_eq!(v, strings(&["a", "b"]));
}

#[test]
fn compare_notes_folders_on_one_side_only() {
    let live = strings(&["C:\\Tools", "C:\\LLVM\\bin", "C:\\Tools\\"]);
    let process = strings(&["c:/tools", "C:\\Temp"]);
    let mut missing = Vec::new();
    let mut session = Vec::new();
    compare("PATH", &live, &process, &mut missing, &mut session);
    assert_eq!(missing, strings(&["PATH C:\\LLVM\\bin"]));
    assert_eq!(session, strings(&["PATH C:\\Temp"]));
}

#[test]
fn registry_values_parse_reg_query_output() {
    let output = "\r\nHKEY_CURRENT_USER\\Environment\r\n    Path    REG_EXPAND_SZ    %USERPROFILE%\\bin;C:\\x  \r\n    lib    REG_SZ    \r\n    REG_SZ    nameless\r\n    TEMP    REG_EXPAND_SZ\r\n\r\n";
    let values = registry_values(output);
    assert_eq!(
        values,
        vec![
            ("PATH".to_string(), "%USERPROFILE%\\bin;C:\\x".to_string()),
            ("LIB".to_string(), "".to_string()),
            ("TEMP".to_string(), "".to_string()),
        ]
    );
    assert_eq!(lookup(&values, "PATH"), Some("%USERPROFILE%\\bin;C:\\x".to_string()));
    assert_eq!(lookup(&values, "Path"), None);
    let twice = vec![("PATH".to_string(), "a".to_string()), ("PATH".to_string(), "b".to_string())];
    assert_eq!(lookup(&twice, "PATH"), Some("b".to_string()));
}

#[test]
fn expand_replaces_the_references_found() {
    let value = "%A%\\bin;%MISSING%;x%%y%B%";
    assert_eq!(references(value), strings(&["A", "MISSING", "", "B"]));
    let found = vec![Some("C:\\a".to_string()), None, Some("!".to_string()), None];
    assert_eq!(expand(value, &found), "C:\\a\\bin;%MISSING%;x!y%B%");
    assert_eq!(expand(value, &Vec::new()), value);
    assert_eq!(expand("100%", &Vec::new()), "100%");
    assert_eq!(references("100%"), Vec::<String>::new());
}

#[test]
fn joined_puts_the_user_value_after_the_machine_value() {
    assert_eq!(joined(Some("a;b;;".to_string()), Some("c".to_string())), Some("a;b;c".to_string()));
    assert_eq!(joined(Some("a".to_string()), None), Some("a".to_string()));
    assert_eq!(joined(None, Some("c".to_string())), Some("c".to_string()));
    assert_eq!(joined(None, None), None);
}

#[test]
fn process_snapshot_keeps_the_lists_of_this_process() {
    let s = EnvSnapshot::from_process(
        Some(strings(&["/bin", "", "/usr/bin"])),
        None,
        Some(strings(&["/opt/lib"])),
    );
    assert_eq!(s.path, strings(&["/bin", "/usr/bin"]));
    assert!(s.lib.is_empty());
    assert!(!s.lib_defined);
    assert_eq!(s.library_path, strings(&["/opt/lib"]));
    assert_eq!(s.source, PROCESS_SOURCE);
    assert!(!s.is_stale());
    let t = EnvSnapshot::from_process(None, Some(Vec::new()), None);
    assert!(t.lib_defined);
}

#[test]
fn registry_snapshot_is_stale_when_a_saved_folder_is_missing() {
    let s = EnvSnapshot::from_registry(
        Some(strings(&["C:\\A", "C:\\B"])),
        Some(strings(&["C:\\Lib"])),
        Some(strings(&["c:\\a"])),
        Some(strings(&["C:\\Lib", "C:\\Extra"])),
    );
    assert_eq!(s.source, REGISTRY_SOURCE);
    assert!(s.lib_defined);
    assert!(s.is_stale());
    assert_eq!(s.missing_here, strings(&["PATH C:\\B"]));
    assert_eq!(s.session_only, strings(&["LIB C:\\Extra"]));
    assert_eq!(s.path, strings(&["C:\\A", "C:\\B"]));
}

#[test]
fn registry_snapshot_matching_this_process_is_not_stale() {
    let s = EnvSnapshot::from_registry(
        Some(strings(&["C:\\A\\"])),
        None,
        Some(strings(&["c:/a"])),
        None,
    );
    assert!(!s.is_stale());
    assert!(s.session_only.is_empty());
    assert!(!s.lib_defined);
}

#[test]
fn without_registry_the_process_lists_are_used() {
    let s = EnvSnapshot::from_registry(None, Some(strings(&["x"])), Some(strings(&["/p"])), Some(strings(&["/l"])));
    assert_eq!(s.source, FALLBACK_SOURCE);
    assert_eq!(s.path, strings(&["/p"]));
    assert_eq!(s.lib, strings(&["/l"]));
    assert!(s.lib_defined);
    assert!(!s.is_stale());
    let e = EnvSnapshot::empty();
    assert!(e.path.is_empty() && e.source.is_empty() && !e.is_stale());
}
