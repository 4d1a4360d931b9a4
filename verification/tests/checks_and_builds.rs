use stickle::builds::{
    args, echo, line_text, plain, test_target, Progress, Step, StepEnd, Target, PROJECT_TOKEN,
};
use stickle::checks::{
    dotnet_group, file_check, find_in, newest_major, sdk_major, sources_group, st_dir_check,
    st_files, test_project_check, tool_check, which, Check, Group, Located, Platform, Report,
    Status,
};
use stickle::env::EnvSnapshot;
use stickle::paths::join_path;
use stickle::project::Project;

fn strings(items: &[&str]) -> Vec<String> {
    items.iter().map(|s| s.to_string()).collect()
}

fn project(root: &str, test: Option<&str>, framework: Option<u32>) -> Project {
    Project { root: root.to_string(), test_project: test.map(|t| t.to_string()), framework }
}

fn check(name: &str, status: Status) -> Check {
    Check {
        name: name.to_string(),
        status,
        summary: String::new(),
        expected: String::new(),
        found: String::new(),
        remedy: Vec::new(),
    }
}

#[test]
fn status_words() {
    assert_eq!(Status::Pass.badge(), " MET  ");
    assert_eq!(Status::Warn.badge(), " WARN ");
    assert_eq!(Status::Fail.badge(), " UNMET");
    assert_eq!(Status::Warn.word(), "Requirement met with a mismatch");
}

#[test]
fn join_path_joins_with_the_separator() {
    assert_eq!(join_path("/repo", "tests/T.csproj"), "/repo/tests/T.csproj");
    assert_eq!(join_path("/repo/", "x"), "/repo/x");
    assert_eq!(join_path("/repo", "/abs"), "/abs");
}

#[test]
fn sdk_lines_give_their_major_version() {
    assert_eq!(sdk_major("8.0.100 [/usr/share/dotnet/sdk]"), Some(8));
    assert_eq!(sdk_major("10 preview"), Some(10));
    assert_eq!(sdk_major("preview.1"), None);
    assert_eq!(sdk_major(""), None);
    assert_eq!(newest_major(&strings(&["6.0.400 [x]", "9.0.100 [x]", "garbage", "8.0.1 [x]"])), Some(9));
    assert_eq!(newest_major(&Vec::new()), None);
}

#[test]
fn test_project_check_reports_the_framework() {
    let c = test_project_check(&project("/repo", Some("tests/T.csproj"), Some(8)));
    assert_eq!(c.status, Status::Pass);
    assert_eq!(c.summary, "tests/T.csproj");
    assert_eq!(c.found, "/repo/tests/T.csproj\ntarget framework: net8.0");
    let d = test_project_check(&project("/repo", Some("T.csproj"), None));
    assert_eq!(d.found, "/repo/T.csproj\ntarget framework could not be read");
    let e = test_project_check(&project("/repo", None, None));
    assert_eq!(e.status, Status::Fail);
    assert_eq!(e.summary, "no .csproj found");
    assert_eq!(e.found, "searched /repo and its immediate subfolders");
    assert_eq!(e.remedy.len(), 3);
}

#[test]
fn file_check_on_a_missing_file_fails() {
    let c = file_check("/nonexistent-root-7f3a", "compiled/x.so", "x.so", "the library", strings(&["build it"]));
    assert_eq!(c.status, Status::Fail);
    assert_eq!(c.summary, "missing");
    assert_eq!(c.expected, "x.so, the library");
    assert_eq!(c.found, "/nonexistent-root-7f3a/compiled/x.so does not exist");
    assert_eq!(c.remedy, strings(&["build it"]));
}

#[test]
fn st_dir_check_counts_the_sources() {
    let files = strings(&["/r/source/a.st", "/r/source/b.st"]);
    let c = st_dir_check("/r", "source", "source .st files", "the sources", &files);
    assert_eq!(c.status, Status::Pass);
    assert_eq!(c.summary, "2 file(s)");
    assert_eq!(c.found, "/r/source/a.st\n/r/source/b.st");
    let e = st_dir_check("/r", "source", "source .st files", "the sources", &Vec::new());
    assert_eq!(e.status, Status::Fail);
    assert_eq!(e.found, "/r/source holds no .st files");
}

#[test]
fn st_files_keeps_the_sources_in_sorted_order() {
    let names = strings(&["z.st", "notes.txt", "A.ST", "m.St", "st", ".st"]);
    assert_eq!(st_files("/r/src", &names), strings(&["/r/src/A.ST", "/r/src/m.St", "/r/src/z.st"]));
}

#[test]
fn sources_group_on_a_missing_root() {
    let none = Vec::new();
    let g = sources_group("/nonexistent-root-7f3a", &none, &none, &none);
    assert_eq!(g.title, "Project sources");
    assert_eq!(g.checks.len(), 4);
    assert!(g.checks.iter().all(|c| c.status == Status::Fail));
    assert_eq!(g.checks[3].name, "compiled output folder");
    assert_eq!(g.checks[3].found, "/nonexistent-root-7f3a/compiled does not exist");
}

#[test]
fn which_finds_nothing_in_missing_folders() {
    let env = EnvSnapshot::from_process(Some(strings(&["/nonexistent-a", "/nonexistent-b"])), None, None);
    assert_eq!(which(&env, "dotnet", Platform::Unix), None);
    assert_eq!(find_in(&strings(&["/nonexistent-a"]), "x.so"), None);
    assert_eq!(
        Platform::Windows.candidates("C:\\bin", "clang"),
        strings(&["C:\\bin/clang.exe", "C:\\bin/clang.cmd", "C:\\bin/clang.bat"])
    );
}

#[test]
fn which_takes_the_first_folder_holding_the_program() {
    let env = EnvSnapshot::from_process(Some(strings(&["/nonexistent-a", "/bin", "/usr/bin"])), None, None);
    assert_eq!(which(&env, "sh", Platform::Unix), Some("/bin/sh".to_string()));
    assert_eq!(find_in(&strings(&["/nonexistent-a", "/bin"]), "sh"), Some("/bin/sh".to_string()));
}

#[test]
fn tool_check_reports_the_version() {
    let found = Some(Located { path: "/usr/bin/plc".to_string(), version: Some("plc 0.2".to_string()) });
    let c = tool_check("plc on PATH", "plc", "plc", strings(&["install"]), 3, &found);
    assert_eq!(c.status, Status::Pass);
    assert_eq!(c.summary, "plc 0.2");
    assert_eq!(c.found, "/usr/bin/plc\nplc 0.2");
    let silent = Some(Located { path: "/usr/bin/plc".to_string(), version: None });
    assert_eq!(tool_check("p", "e", "plc", Vec::new(), 3, &silent).summary, "version not reported");
    let missing = tool_check("p", "e", "plc", strings(&["install"]), 3, &None);
    assert_eq!(missing.found, "no plc in any of the 3 PATH folder(s)");
    assert_eq!(missing.remedy, strings(&["install"]));
}

#[test]
fn dotnet_group_without_dotnet() {
    let env = EnvSnapshot::from_process(Some(strings(&["/a", "/b"])), None, None);
    let g = dotnet_group(&env, &None, &Vec::new(), &project("/repo", None, Some(8)), Platform::Unix);
    assert_eq!(g.title, ".NET test host");
    assert_eq!(g.checks.len(), 3);
    assert_eq!(g.checks[0].found, "no dotnet in any of the 2 PATH folder(s)");
    assert_eq!(g.checks[1].name, ".NET SDK 8 or newer");
    assert_eq!(g.checks[1].summary, "cannot be queried");
}

#[test]
fn dotnet_group_with_an_old_sdk() {
    let env = EnvSnapshot::from_process(Some(strings(&["/a"])), None, None);
    let sdks = strings(&["6.0.100 [/x]", "7.0.100 [/x]"]);
    let g = dotnet_group(&env, &Some("/a/dotnet".to_string()), &sdks, &project("/repo", None, Some(8)), Platform::Unix);
    assert_eq!(g.checks[0].status, Status::Pass);
    assert_eq!(g.checks[0].found, "/a/dotnet");
    assert_eq!(g.checks[1].status, Status::Fail);
    assert_eq!(g.checks[1].summary, "newest SDK is 7.x");
    assert_eq!(g.checks[1].found, "6.0.100 [/x]\n7.0.100 [/x]");
    let ok = dotnet_group(&env, &Some("/a/dotnet".to_string()), &sdks, &project("/repo", None, Some(6)), Platform::Unix);
    assert_eq!(ok.checks[1].status, Status::Pass);
    assert_eq!(ok.checks[1].summary, "SDK 7.x installed");
    let none = dotnet_group(&env, &Some("/a/dotnet".to_string()), &Vec::new(), &project("/repo", None, None), Platform::Unix);
    assert_eq!(none.checks[1].summary, "no SDK installed");
    assert_eq!(none.checks[1].name, ".NET SDK");
}

#[test]
fn report_totals_count_each_verdict() {
    let groups = vec![
        Group { title: "a".to_string(), checks: vec![check("x", Status::Pass), check("y", Status::Fail)] },
        Group { title: "b".to_string(), checks: vec![check("z", Status::Warn), check("w", Status::Pass)] },
    ];
    let dotnet = Group { title: "d".to_string(), checks: vec![check("v", Status::Fail)] };
    let sources = Group { title: "s".to_string(), checks: Vec::new() };
    let r = Report::run(EnvSnapshot::empty(), project("/repo", None, None), Platform::Unix, groups, dotnet, sources);
    assert_eq!(r.totals(), (5, 2, 1, 2));
    assert_eq!(r.platform, "Linux");
    assert_eq!(r.groups.len(), 4);
    let p = Report::pending(project("/repo", None, None), Platform::Windows);
    assert_eq!(p.totals(), (0, 0, 0, 0));
    assert_eq!(p.platform, "Windows");
}

#[test]
fn resolution_replaces_or_drops_the_project_placeholder() {
    let t = test_target("compiled/lib_structured_text.so");
    assert_eq!(t.steps[0].args, strings(&["test", PROJECT_TOKEN, "--logger", "console;verbosity=detailed"]));
    let with = t.resolved(Some("tests/T.csproj"));
    assert_eq!(with.steps[0].args, strings(&["test", "tests/T.csproj", "--logger", "console;verbosity=detailed"]));
    let without = t.resolved(None);
    assert_eq!(without.steps[0].args, strings(&["test", "--logger", "console;verbosity=detailed"]));
    let again = with.resolved(Some("other"));
    assert_eq!(again.steps[0].args, with.steps[0].args);
    assert_eq!(with.label, "dotnet test");
    assert_eq!(with.requires, Some("compiled/lib_structured_text.so"));
}

#[test]
fn targets_are_listed_in_build_order() {
    let labels: Vec<&str> = stickle::builds::unix::targets().iter().map(|t: &Target| t.label).collect();
    assert_eq!(labels, vec!["libNX1P2.so", "lib_structured_text.so", "lib_structured_text.xml", "dotnet test"]);
    let labels: Vec<&str> = stickle::builds::windows::targets().iter().map(|t: &Target| t.label).collect();
    assert_eq!(labels.len(), 4);
}

#[test]
fn plain_strips_escape_sequences_and_controls() {
    assert_eq!(plain("\x1b[1;31merror\x1b[0m: x\ty"), "error: x\ty");
    assert_eq!(plain("\x1b]0;title\x07done"), "done");
    assert_eq!(plain("\x1b]8;;http://x\x1b\\link"), "link");
    assert_eq!(plain("a\rb\x08c"), "abc");
    assert_eq!(line_text("warning: y\r\n"), "warning: y");
}

#[test]
fn plain_text_stays_plain() {
    for s in ["\x1b[1;31merror\x1b[0m: x\ty", "\x1b]0;t\x07a\rb", "clean\ttext", "\x1b", ""] {
        let once = plain(s);
        assert_eq!(plain(&once), once);
    }
    assert_eq!(plain("clean\ttext"), "clean\ttext");
}

#[test]
fn echo_shows_the_command() {
    let step = Step { program: "plc", args: args(&["a.st", "-o", "b"]) };
    assert_eq!(echo(&step), "$ plc a.st -o b");
    let bare = Step { program: "dotnet", args: Vec::new() };
    assert_eq!(echo(&bare), "$ dotnet ");
}

#[test]
fn a_failed_step_stops_the_build_with_its_message() {
    let p = Progress::new();
    let (p, go_on, shown) = p.after(
        "plc",
        StepEnd::Exited { success: true, code: Some(0), stdout_tail: Some("compiled".to_string()), stderr_tail: None },
    );
    assert!(go_on && shown.is_none() && p.ok);
    assert_eq!(p.message, "compiled");
    let (p, go_on, _) = p.after(
        "plc",
        StepEnd::Exited { success: false, code: Some(2), stdout_tail: Some("out".to_string()), stderr_tail: Some("err".to_string()) },
    );
    assert!(!go_on && !p.ok);
    assert_eq!(p.code, Some(2));
    assert_eq!(p.message, "err");
    let p = p.finish("plc");
    assert_eq!(p.message, "err");
}

#[test]
fn step_errors_name_the_program() {
    let (p, go_on, shown) = Progress::new().after("clang", StepEnd::Missing);
    assert!(!go_on && !p.ok);
    assert_eq!(shown, Some("clang was not found on PATH".to_string()));
    let (p, _, shown) = Progress::new().after("clang", StepEnd::SpawnFailed("denied".to_string()));
    assert_eq!(shown, Some("clang: denied".to_string()));
    assert_eq!(p.message, "clang: denied");
    let (_, _, shown) = Progress::new().after("clang", StepEnd::WaitFailed("lost".to_string()));
    assert_eq!(shown, Some("clang: lost".to_string()));
    let (p, _, _) = Progress::new().after(
        "clang",
        StepEnd::Exited { success: false, code: None, stdout_tail: None, stderr_tail: None },
    );
    assert_eq!(p.message, "clang failed");
    assert_eq!(p.code, None);
}

#[test]
fn a_quiet_build_reports_that_it_finished() {
    let p = Progress::new().finish("libNX1P2.so");
    assert!(p.ok);
    assert_eq!(p.message, "libNX1P2.so finished");
}

#[test]
fn a_linux_scan_has_five_groups_and_twelve_checks() {
    let env = EnvSnapshot::from_process(Some(strings(&["/nonexistent-a"])), None, None);
    let r = Report::for_unix(
        env,
        project("/nonexistent-root-7f3a", None, None),
        &None,
        &None,
        "x86_64",
        &None,
        &Vec::new(),
        &Vec::new(),
        &Vec::new(),
        &Vec::new(),
    );
    let shape: Vec<(&str, usize)> = r.groups.iter().map(|g| (g.title.as_str(), g.checks.len())).collect();
    assert_eq!(
        shape,
        vec![
            ("Compiler toolchain", 2),
            ("Run time libraries (loader path)", 2),
            ("Build artifacts", 1),
            (".NET test host", 3),
            ("Project sources", 4),
        ]
    );
    assert_eq!(r.totals().0, 12);
    assert_eq!(r.platform, "Linux");
}

#[test]
fn a_windows_scan_has_seven_groups_and_twenty_two_checks() {
    let env = EnvSnapshot::from_process(Some(strings(&["/nonexistent-a"])), Some(strings(&["/nonexistent-lib"])), None);
    let r = Report::for_windows(
        env,
        project("/nonexistent-root-7f3a", None, None),
        &None,
        &None,
        &None,
        &None,
        &Vec::new(),
        &Vec::new(),
        &Vec::new(),
        &Vec::new(),
    );
    let counts: Vec<usize> = r.groups.iter().map(|g| g.checks.len()).collect();
    assert_eq!(counts, vec![3, 8, 1, 2, 1, 3, 4]);
    assert_eq!(r.groups[5].title, ".NET test host");
    assert_eq!(r.groups[6].title, "Project sources");
    assert_eq!(r.totals().0, 22);
    assert_eq!(r.platform, "Windows");
}
