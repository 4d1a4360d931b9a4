use stickle::app::{App, Change, Rect, Row, CHANGE_LIFETIME_MS};
use stickle::layout::{build_buttons, live_buttons};
use stickle::checks::{Check, Group, Platform, Report, Status};
use stickle::env::EnvSnapshot;
use stickle::probe::{chosen_output, Captured, Probes, Stamp};
use stickle::project::Project;
use stickle::sequence::Sequence;
use stickle::theme::{Color, Mode, Theme};

fn project() -> Project {
    Project { root: "/repo".to_string(), test_project: None, framework: None }
}

fn check(name: &str, status: Status) -> Check {
    Check {
        name: name.to_string(),
        status,
        summary: String::new(),
        expected: String::new(),
        found: String::new(),
        remedy: Vec::new(),
    }
}

fn report(a: Status, b: Status, c: Status) -> Report {
    let tools = Group { title: "Tools".to_string(), checks: vec![check("plc", a), check("cc", b)] };
    let net = Group { title: ".NET".to_string(), checks: vec![check("dotnet", c)] };
    let sources = Group { title: "Sources".to_string(), checks: Vec::new() };
    Report::run(EnvSnapshot::empty(), project(), Platform::Unix, vec![tools], net, sources)
}

fn selected_name(app: &App) -> Option<String> {
    app.selected_check().map(|c| c.name.clone())
}

fn index_of(s: &Sequence) -> (&'static str, usize) {
    match s {
        Sequence::Ready(c) => ("ready", c.index()),
        Sequence::Building(c) => ("building", c.index()),
        Sequence::Passed(c) => ("passed", c.index()),
        Sequence::Failed(c) => ("failed", c.index()),
    }
}

#[test]
fn a_pass_moves_on_and_a_failure_retries() {
    let s = Sequence::new(3);
    let (s, next) = s.armed();
    assert_eq!(next, Some(0));
    let s = s.started(0);
    assert_eq!(index_of(&s), ("building", 0));
    let (s, none) = s.armed();
    assert_eq!(none, None);
    let s = s.finished(true);
    assert_eq!(index_of(&s), ("passed", 1));
    let (s, next) = s.armed();
    assert_eq!(next, Some(1));
    let s = s.started(1).finished(false);
    assert_eq!(index_of(&s), ("failed", 1));
    assert_eq!(s.armed().1, Some(1));
}

#[test]
fn the_sequence_goes_round_the_targets() {
    let s = Sequence::new(2).started(1).finished(true);
    assert_eq!(index_of(&s), ("passed", 0));
    let empty = Sequence::new(0).started(0).finished(true);
    assert_eq!(index_of(&empty), ("passed", 0));
}

#[test]
fn the_index_stays_among_the_targets() {
    let mut s = Sequence::new(3);
    for step in 0..12usize {
        let (armed, offered) = s.armed();
        let index = offered.unwrap_or(0);
        assert!(index < 3);
        s = armed.started(index).finished(step % 3 != 0);
        assert!(index_of(&s).1 < 3);
    }
}

#[test]
fn starting_while_building_changes_nothing() {
    let s = Sequence::new(4).started(2).started(3);
    assert_eq!(index_of(&s), ("building", 2));
}

#[test]
fn themes_flip_between_dark_and_light() {
    assert_eq!(Theme::of(Mode::Dark), Theme::dark());
    assert_eq!(Theme::dark().flipped(), Theme::light());
    assert_eq!(Theme::light().flipped().flipped(), Theme::light());
    assert_eq!(Theme::dark().status(Status::Fail), Color::Red);
    assert_eq!(Theme::light().status(Status::Pass), Color::Rgb(21, 112, 70));
}

#[test]
fn a_new_dashboard_has_nothing_selected() {
    let app = App::new(project(), Platform::Unix);
    assert!(app.rows.is_empty());
    assert_eq!(app.list, None);
    assert_eq!(app.scans, 0);
    assert_eq!(app.theme.mode, Mode::Dark);
    assert_eq!(app.report.root, "/repo");
}

#[test]
fn the_first_scan_selects_the_first_unmet_check() {
    let mut app = App::new(project(), Platform::Unix);
    app.tick(10, Some(report(Status::Pass, Status::Fail, Status::Fail)));
    assert_eq!(app.scans, 1);
    assert_eq!(app.last_scan, Some(10));
    assert!(app.changes.is_empty());
    assert_eq!(
        app.rows,
        vec![
            Row::Header { group: 0 },
            Row::Item { group: 0, check: 0 },
            Row::Item { group: 0, check: 1 },
            Row::Header { group: 1 },
            Row::Item { group: 1, check: 0 },
            Row::Header { group: 2 },
        ]
    );
    assert_eq!(selected_name(&app), Some("cc".to_string()));
    assert_eq!(app.key_of(&app.rows[2]), Some("Tools / cc".to_string()));
    assert_eq!(app.key_of(&app.rows[0]), None);
}

#[test]
fn moving_skips_headings_and_goes_round() {
    let mut app = App::new(project(), Platform::Unix);
    app.tick(0, Some(report(Status::Pass, Status::Pass, Status::Pass)));
    assert_eq!(selected_name(&app), Some("plc".to_string()));
    app.move_selection(true);
    assert_eq!(selected_name(&app), Some("cc".to_string()));
    app.move_selection(true);
    assert_eq!(selected_name(&app), Some("dotnet".to_string()));
    app.move_selection(true);
    assert_eq!(selected_name(&app), Some("plc".to_string()));
    app.move_selection(false);
    assert_eq!(selected_name(&app), Some("dotnet".to_string()));
}

#[test]
fn jump_goes_to_the_next_unmet_check() {
    let mut app = App::new(project(), Platform::Unix);
    app.tick(0, Some(report(Status::Fail, Status::Pass, Status::Fail)));
    assert_eq!(selected_name(&app), Some("plc".to_string()));
    app.jump_to_next_unmet();
    assert_eq!(selected_name(&app), Some("dotnet".to_string()));
    app.jump_to_next_unmet();
    assert_eq!(selected_name(&app), Some("plc".to_string()));
}

#[test]
fn a_changed_verdict_is_recorded_and_forgotten_later() {
    let mut app = App::new(project(), Platform::Unix);
    app.tick(0, Some(report(Status::Fail, Status::Pass, Status::Pass)));
    app.move_selection(true);
    assert_eq!(selected_name(&app), Some("cc".to_string()));
    app.tick(100, Some(report(Status::Pass, Status::Pass, Status::Pass)));
    assert_eq!(app.changes.len(), 1);
    assert_eq!(app.changes[0].label, "Tools / plc");
    assert_eq!(app.changes[0].from, Status::Fail);
    assert_eq!(app.changes[0].to, Status::Pass);
    assert_eq!(app.changes[0].at, 100);
    assert!(app.is_recent(&app.rows[1]));
    assert!(!app.is_recent(&app.rows[2]));
    assert_eq!(selected_name(&app), Some("cc".to_string()));
    app.tick(100 + CHANGE_LIFETIME_MS - 1, None);
    assert_eq!(app.changes.len(), 1);
    app.tick(100 + CHANGE_LIFETIME_MS + 1, None);
    assert!(app.changes.is_empty());
}

#[test]
fn the_same_verdicts_record_no_change() {
    let mut app = App::new(project(), Platform::Unix);
    app.tick(0, Some(report(Status::Fail, Status::Pass, Status::Pass)));
    app.tick(1, Some(report(Status::Fail, Status::Pass, Status::Pass)));
    assert!(app.changes.is_empty());
    assert_eq!(app.scans, 2);
}

#[test]
fn scrolling_stays_in_range_and_clicks_pick_themes() {
    let mut app = App::new(project(), Platform::Unix);
    app.scroll_detail(-5);
    assert_eq!(app.detail_scroll, 0);
    app.scroll_detail(7);
    assert_eq!(app.detail_scroll, 7);
    app.scroll_detail(i16::MAX);
    app.scroll_detail(i16::MAX);
    app.scroll_detail(i16::MAX);
    assert_eq!(app.detail_scroll, u16::MAX);
    app.limit_detail_scroll(12);
    assert_eq!(app.detail_scroll, 12);
    app.limit_detail_scroll(40);
    assert_eq!(app.detail_scroll, 12);
    app.dark_button = Rect { x: 10, y: 0, width: 4, height: 1 };
    app.light_button = Rect { x: 15, y: 0, width: 5, height: 1 };
    app.click(16, 0);
    assert_eq!(app.theme.mode, Mode::Light);
    app.click(0, 5);
    assert_eq!(app.theme.mode, Mode::Light);
    app.click(13, 0);
    assert_eq!(app.theme.mode, Mode::Dark);
    app.toggle_theme();
    assert_eq!(app.theme.mode, Mode::Light);
    assert!(Rect::zero().right() == 0 && !Rect::zero().contains(0, 0));
}

#[test]
fn the_cache_answers_only_for_the_same_stamp() {
    let mut probes = Probes::new();
    let key = Probes::key("/usr/bin/plc", &vec!["--version".to_string()]);
    assert_eq!(key, "/usr/bin/plc|--version");
    let stamp = Some(Stamp { len: 10, modified: Some(5) });
    assert_eq!(probes.cached(&key, stamp), None);
    probes.record(key.clone(), stamp, "plc 1.0\n".to_string());
    assert_eq!(probes.cached(&key, stamp), Some("plc 1.0\n".to_string()));
    assert_eq!(probes.cached(&key, Some(Stamp { len: 11, modified: Some(5) })), None);
    assert_eq!(probes.cached(&key, None), None);
    let changed = Some(Stamp { len: 11, modified: Some(6) });
    probes.record(key.clone(), changed, "plc 2.0\n".to_string());
    assert_eq!(probes.cached(&key, changed), Some("plc 2.0\n".to_string()));
    assert_eq!(probes.cached(&key, stamp), None);
}

#[test]
fn outputs_give_their_lines_with_text() {
    assert_eq!(Probes::first_line("\n  \n  clang version 14.0.6 \nx"), Some("clang version 14.0.6".to_string()));
    assert_eq!(Probes::first_line(" \n"), None);
    assert_eq!(Probes::lines("a\n\n b \r\n"), vec!["a".to_string(), "b".to_string()]);
    assert_eq!(chosen_output(" \n".to_string(), "err".to_string()), "err");
    assert_eq!(chosen_output("out".to_string(), "err".to_string()), "out");
}

#[test]
fn changes_name_the_check() {
    let c = Change { label: "Tools / plc".to_string(), from: Status::Pass, to: Status::Fail, at: 1 };
    assert_eq!(c.label, "Tools / plc");
}

#[test]
fn a_run_is_answered_until_the_program_changes() {
    let mut probes = Probes::new();
    let args = vec!["--version".to_string()];
    let stamp = Some(Stamp { len: 10, modified: Some(5) });
    assert_eq!(probes.lookup("/usr/bin/cc", &args, stamp), None);
    let first = probes.settle(
        "/usr/bin/cc",
        &args,
        stamp,
        Captured::Started { stdout: "  ".to_string(), stderr: "cc 12\n".to_string() },
    );
    assert_eq!(first, "cc 12\n");
    assert_eq!(probes.lookup("/usr/bin/cc", &args, stamp), Some("cc 12\n".to_string()));
    let changed = Some(Stamp { len: 10, modified: Some(6) });
    assert_eq!(probes.lookup("/usr/bin/cc", &args, changed), None);
    assert_eq!(probes.settle("/usr/bin/cc", &args, changed, Captured::NotStarted), "");
    assert_eq!(probes.lookup("/usr/bin/cc", &args, changed), Some(String::new()));
}

#[test]
fn build_buttons_are_live_only_while_nothing_builds() {
    let list = stickle::builds::unix::targets();
    let pane = Rect { x: 0, y: 0, width: 40, height: 8 };
    assert_eq!(live_buttons(&list, pane, None), build_buttons(&list, pane));
    assert!(live_buttons(&list, pane, Some(1)).iter().all(|r| *r == Rect::zero()));
}
