use stickle::project::{
    csproj_in, framework_of, major_version, root_of, test_dir_name, test_project_of, Level, Project,
    TEST_DIR_COUNT,
};

fn strings(items: &[&str]) -> Vec<String> {
    items.iter().map(|s| s.to_string()).collect()
}

#[test]
fn major_version_reads_target_framework_monikers() {
    assert_eq!(major_version("net8.0"), Some(8));
    assert_eq!(major_version("net481"), Some(481));
    assert_eq!(major_version("netnet10.0-windows"), Some(10));
    assert_eq!(major_version("8.0"), Some(8));
    assert_eq!(major_version("netstandard2.0"), None);
    assert_eq!(major_version("netcoreapp3.1"), None);
    assert_eq!(major_version(""), None);
    assert_eq!(major_version("net99999999999.0"), None);
}

#[test]
fn framework_of_takes_the_newest_declared() {
    let single = "<Project><PropertyGroup><TargetFramework>net8.0</TargetFramework></PropertyGroup></Project>";
    assert_eq!(framework_of(single), Some(8));
    let many = "<TargetFrameworks> net6.0 ; net9.0;netstandard2.0 </TargetFrameworks>";
    assert_eq!(framework_of(many), Some(9));
    let both = "<TargetFramework>net10.0</TargetFramework><TargetFrameworks>net6.0;net7.0</TargetFrameworks>";
    assert_eq!(framework_of(both), Some(10));
    assert_eq!(framework_of("<TargetFramework>net8.0"), None);
    assert_eq!(framework_of("no framework here"), None);
}

#[test]
fn csproj_in_picks_the_first_project_file_in_sorted_order() {
    let names = strings(&["b.csproj", "README.md", "A.CSPROJ", "c.csproj", ".csproj"]);
    assert_eq!(csproj_in(&names), Some("A.CSPROJ".to_string()));
    assert_eq!(csproj_in(&strings(&["x.sln", "y.cs"])), None);
    assert_eq!(csproj_in(&Vec::new()), None);
}

#[test]
fn test_project_prefers_root_then_test_folders_then_others() {
    let hits = vec![None, Some("T.csproj".to_string()), Some("U.csproj".to_string())];
    let found = vec![("a".to_string(), "z.csproj".to_string())];
    assert_eq!(
        test_project_of(Some("Root.csproj".to_string()), &hits, &found),
        Some("Root.csproj".to_string())
    );
    assert_eq!(test_project_of(None, &hits, &found), Some("test/T.csproj".to_string()));
    let found = vec![
        ("a-b".to_string(), "x.csproj".to_string()),
        ("a".to_string(), "y.csproj".to_string()),
        ("a".to_string(), "b.csproj".to_string()),
    ];
    assert_eq!(test_project_of(None, &vec![None; 4], &found), Some("a/b.csproj".to_string()));
    assert_eq!(test_project_of(None, &Vec::new(), &Vec::new()), None);
}

#[test]
fn test_folders_are_searched_in_order() {
    let names: Vec<&str> = (0..TEST_DIR_COUNT).map(test_dir_name).collect();
    assert_eq!(names, vec!["tests", "test", "Tests", "Test"]);
}

#[test]
fn root_is_the_nearest_git_checkout_else_a_project_folder() {
    let level = |dir: &str, git: bool, csproj: bool| Level { dir: dir.to_string(), git, csproj };
    let levels = vec![level("/a/b/c", false, false), level("/a/b", false, true), level("/a", true, false)];
    assert_eq!(root_of("/a/b/c", &levels), "/a");
    let levels = vec![level("/a/b/c", false, false), level("/a/b", false, true), level("/a", false, true)];
    assert_eq!(root_of("/a/b/c", &levels), "/a/b");
    let levels = vec![level("/a/b/c", false, false)];
    assert_eq!(root_of("/start", &levels), "/start");
}

#[test]
fn project_reads_its_framework_from_the_project_text() {
    let p = Project::from_parts(
        "/repo".to_string(),
        Some("tests/T.csproj".to_string()),
        Some("<TargetFramework>net9.0</TargetFramework>".to_string()),
    );
    assert_eq!(p.framework, Some(9));
    assert_eq!(p.test_project.as_deref(), Some("tests/T.csproj"));
    let q = Project::from_parts("/repo".to_string(), None, None);
    assert_eq!(q.framework, None);
    let r = Project::from_parts(
        "/repo".to_string(),
        None,
        Some("<TargetFramework>net9.0</TargetFramework>".to_string()),
    );
    assert_eq!(r.framework, None);
}
