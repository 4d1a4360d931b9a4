use stickle::checks::unix::{artifact_group_for as unix_artifacts, loader_dirs, shared_object_group_for};
use stickle::checks::windows::{
    artifact_group_for as windows_artifacts, clang_version, exports_group_for, lib_group_for,
    required_libs, runtime_group_for, toolchain_group, LibSource, LLVM_RELEASE, REQUIRED_LLVM,
};
use stickle::checks::{compiled_check, file_check_for, sources_group_for, Located, Status};
use stickle::env::EnvSnapshot;

fn strings(items: &[&str]) -> Vec<String> {
    items.iter().map(|s| s.to_string()).collect()
}

#[test]
fn file_check_for_follows_the_answer() {
    let yes = file_check_for("/r/a.so".to_string(), true, "a.so", "the library", strings(&["build"]));
    assert_eq!(yes.status, Status::Pass);
    assert_eq!(yes.summary, "present");
    assert_eq!(yes.found, "/r/a.so");
    assert!(yes.remedy.is_empty());
    let no = file_check_for("/r/a.so".to_string(), false, "a.so", "the library", strings(&["build"]));
    assert_eq!(no.status, Status::Fail);
    assert_eq!(no.found, "/r/a.so does not exist");
    assert_eq!(no.remedy, strings(&["build"]));
}

#[test]
fn compiled_folder_check() {
    assert_eq!(compiled_check("/r/compiled".to_string(), true).status, Status::Pass);
    let missing = compiled_check("/r/compiled".to_string(), false);
    assert_eq!(missing.summary, "missing");
    assert_eq!(missing.remedy.last().map(String::as_str), Some("mkdir compiled"));
}

#[test]
fn sources_group_for_lists_each_folder() {
    let source = strings(&["/r/source/a.st"]);
    let g = sources_group_for("/r", &source, &Vec::new(), &source, true);
    let verdicts: Vec<Status> = g.checks.iter().map(|c| c.status).collect();
    assert_eq!(verdicts, vec![Status::Pass, Status::Fail, Status::Pass, Status::Pass]);
    assert_eq!(g.checks[1].found, "/r/libNX1P2 holds no .st files");
    assert_eq!(g.checks[3].found, "/r/compiled");
}

#[test]
fn artifact_groups_follow_the_answer() {
    let g = unix_artifacts("/r", false);
    assert_eq!(g.title, "Build artifacts");
    assert_eq!(g.checks[0].name, "libNX1P2.so");
    assert_eq!(g.checks[0].found, "/r/compiled/libNX1P2.so does not exist");
    assert_eq!(g.checks[0].remedy.len(), 4);
    let w = windows_artifacts("/r", true);
    assert_eq!(w.checks[0].name, "libNX1P2.dll");
    assert_eq!(w.checks[0].status, Status::Pass);
}

#[test]
fn shared_objects_follow_where_they_were_found() {
    let env = EnvSnapshot::from_process(None, None, Some(strings(&["/opt/lib"])));
    assert_eq!(
        loader_dirs(&env, "x86_64"),
        strings(&["/opt/lib", "/lib", "/usr/lib", "/lib/x86_64-linux-gnu", "/usr/lib/x86_64-linux-gnu", "/usr/local/lib"])
    );
    let g = shared_object_group_for(&env, "x86_64", Some("/lib/libiec61131std.so".to_string()), None);
    assert_eq!(g.checks[0].status, Status::Pass);
    assert_eq!(g.checks[0].found, "/lib/libiec61131std.so");
    assert_eq!(g.checks[1].status, Status::Fail);
    assert!(g.checks[1].found.starts_with("searched:\n/opt/lib\n/lib\n"));
    assert_eq!(g.checks[0].remedy.len(), 0);
    assert_eq!(g.checks[1].remedy[3], "sudo cp ./compiled/libNX1P2.so /lib");
}

#[test]
fn exports_and_runtime_follow_the_answers() {
    let g = exports_group_for("C:\\r", true, false);
    assert_eq!(g.title, "Link exports");
    assert_eq!(g.checks[0].status, Status::Pass);
    assert_eq!(g.checks[1].status, Status::Fail);
    let env = EnvSnapshot::from_process(Some(strings(&["C:\\a", "C:\\b"])), None, None);
    let none = runtime_group_for(&env, None);
    assert_eq!(none.checks[0].found, "no iec61131std.dll in any of the 2 PATH folder(s)");
    let some = runtime_group_for(&env, Some("C:\\a\\iec61131std.dll".to_string()));
    assert_eq!(some.checks[0].summary, "resolvable");
}

#[test]
fn lib_group_for_marks_missing_folders_and_libraries() {
    let env = EnvSnapshot::from_process(None, Some(strings(&["C:\\lib", "C:\\gone"])), None);
    let libs = required_libs();
    assert_eq!(libs.len(), 7);
    assert_eq!(libs[0].0, "iec61131std.lib");
    assert_eq!(libs[0].1.origin(), "Rusty Compiler stdlib");
    assert_eq!(LibSource::Msvc.remedy().len(), 3);
    let mut found: Vec<Option<String>> = vec![None; 7];
    found[0] = Some("C:\\lib\\iec61131std.lib".to_string());
    let g = lib_group_for(&env, &vec![true, false], &found);
    assert_eq!(g.title, "Link libraries (LIB)");
    assert_eq!(g.checks.len(), 8);
    assert_eq!(g.checks[0].status, Status::Warn);
    assert_eq!(g.checks[0].summary, "2 folder(s), 1 missing from disk");
    assert_eq!(g.checks[0].found, "[ok] C:\\lib\n[missing] C:\\gone");
    assert_eq!(g.checks[1].status, Status::Pass);
    assert_eq!(g.checks[2].found, "ws2_32.lib is not present in any of the 2 LIB folder(s)");
    let unset = EnvSnapshot::from_process(None, None, None);
    let u = lib_group_for(&unset, &Vec::new(), &vec![None; 7]);
    assert_eq!(u.checks[0].summary, "not set");
}

#[test]
fn clang_versions_are_read_from_the_banner() {
    assert_eq!(clang_version("clang version 14.0.6"), Some("14.0.6".to_string()));
    assert_eq!(clang_version("nothing here"), None);
}

#[test]
fn clang_from_llvm_14_0_6_passes() {
    assert_eq!(REQUIRED_LLVM, "14.0.6");
    assert!(LLVM_RELEASE.ends_with("/v14.0.6"));
    let env = EnvSnapshot::from_process(Some(strings(&["C:\\LLVM\\bin"])), None, None);
    let clang = Some(Located {
        path: "C:\\LLVM\\bin/clang.exe".to_string(),
        version: Some("clang version 14.0.6".to_string()),
    });
    let g = toolchain_group(&env, &None, &clang, &None);
    assert_eq!(g.checks[1].name, "clang 14.0.6 on PATH");
    assert_eq!(g.checks[1].status, Status::Pass);
    assert_eq!(g.checks[1].summary, "clang 14.0.6");
    let newer = Some(Located {
        path: "C:\\LLVM\\bin/clang.exe".to_string(),
        version: Some("clang version 21.1.7".to_string()),
    });
    let w = toolchain_group(&env, &None, &newer, &None);
    assert_eq!(w.checks[1].status, Status::Warn);
    assert_eq!(w.checks[1].summary, "clang 21.1.7, expected 14.0.6");
    let missing = toolchain_group(&env, &None, &None, &None);
    assert_eq!(missing.checks[1].remedy[0], "Install LLVM 14.0.6:");
}
