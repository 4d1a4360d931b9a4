use stickle::app::{Change, Rect};
use stickle::builds::unix::targets;
use stickle::checks::{Check, Status};
use stickle::clipboard::{base64, crlf, helpers, osc52_sequence, CopyState, NO_HELPER};
use stickle::layout::{
    banner, body, build_buttons, centred, change_text, count_of, detail_lines, gauge_label, hint_row,
    scroll_limit, summary_title, thumb_length, toggle_layout, wrap_count, wrapped_rows, Tone,
};

fn strings(items: &[&str]) -> Vec<String> {
    items.iter().map(|s| s.to_string()).collect()
}

#[test]
fn base64_matches_the_standard_vectors() {
    assert_eq!(base64(b""), "");
    assert_eq!(base64(b"f"), "Zg==");
    assert_eq!(base64(b"fo"), "Zm8=");
    assert_eq!(base64(b"foo"), "Zm9v");
    assert_eq!(base64(b"foob"), "Zm9vYg==");
    assert_eq!(base64(b"fooba"), "Zm9vYmE=");
    assert_eq!(base64(b"foobar"), "Zm9vYmFy");
    assert_eq!(base64(&[0xff, 0xfe, 0x00]), "//4A");
    assert_eq!(base64(&[0xfb, 0xff]), "+/8=");
}

#[test]
fn base64_length_is_four_per_started_group() {
    for n in 0..10usize {
        let bytes = vec![7u8; n];
        assert_eq!(base64(&bytes).len(), 4 * ((n + 2) / 3));
    }
}

#[test]
fn osc52_wraps_the_utf8_of_the_text() {
    assert_eq!(osc52_sequence("hi"), "\x1b]52;c;aGk=\x07");
    assert_eq!(osc52_sequence("é"), "\x1b]52;c;w6k=\x07");
}

#[test]
fn crlf_turns_line_feeds_into_pairs() {
    assert_eq!(crlf("a\nb\n"), "a\r\nb\r\n");
    assert_eq!(crlf("a\r\nb"), "a\r\r\nb");
    assert_eq!(crlf(""), "");
}

#[test]
fn helpers_are_tried_in_a_fixed_order() {
    let unix: Vec<&str> = helpers(false).iter().map(|h| h.program).collect();
    assert_eq!(unix, vec!["wl-copy", "xclip", "xsel", "pbcopy"]);
    assert_eq!(helpers(false)[1].args, &["-selection", "clipboard"]);
    assert_eq!(helpers(false)[2].args, &["--clipboard", "--input"]);
    let windows: Vec<&str> = helpers(true).iter().map(|h| h.program).collect();
    assert_eq!(windows, vec!["clip.exe", "clip"]);
}

#[test]
fn copy_succeeds_on_the_first_working_helper() {
    let s = CopyState::start(3);
    let s = s.after(Err("wl-copy: not found".to_string()), 3);
    let s = s.after(Ok(()), 3);
    assert_eq!(s.result(), Some(Ok(())));
}

#[test]
fn copy_reports_the_last_helper_and_the_terminal() {
    let mut s = CopyState::start(2);
    assert_eq!(s.result(), None);
    s = s.after(Err("clip.exe: not found".to_string()), 2);
    s = s.after(Err("clip: exited with 1".to_string()), 2);
    assert!(matches!(s, CopyState::Terminal { .. }));
    s = s.after(Err("OSC 52: broken pipe".to_string()), 2);
    assert_eq!(s.result(), Some(Err("clip: exited with 1, OSC 52: broken pipe".to_string())));
    let s = s.after(Ok(()), 2);
    assert_eq!(s.result(), Some(Err("clip: exited with 1, OSC 52: broken pipe".to_string())));
}

#[test]
fn copy_without_helpers_asks_the_terminal() {
    let s = CopyState::start(0);
    match &s {
        CopyState::Terminal { native } => assert_eq!(native, NO_HELPER),
        _ => panic!("expected the terminal to be asked"),
    }
    assert_eq!(s.after(Ok(()), 0).result(), Some(Ok(())));
}

#[test]
fn thumb_length_is_the_viewport_share_of_the_track() {
    assert_eq!(thumb_length(0, 10, 100), 0);
    assert_eq!(thumb_length(20, 10, 0), 20);
    assert_eq!(thumb_length(20, 10, 100), 2);
    assert_eq!(thumb_length(20, 10, 5), 20);
    assert_eq!(thumb_length(20, 1, 1000), 1);
    assert_eq!(thumb_length(10, 3, 4), 8);
}

#[test]
fn wrap_count_counts_rows() {
    assert_eq!(wrap_count("", 10), 1);
    assert_eq!(wrap_count("hello world", 20), 1);
    assert_eq!(wrap_count("hello world", 6), 2);
    assert_eq!(wrap_count("hello world", 5), 3);
    assert_eq!(wrap_count("abcdefghij", 4), 3);
    assert_eq!(wrap_count("ab abcdefghij", 4), 4);
}

#[test]
fn wrapped_rows_adds_up_the_lines() {
    let texts = strings(&["", "hello world", "abcdefghij"]);
    assert_eq!(wrapped_rows(&texts, 5), 1 + 3 + 2);
    assert_eq!(wrapped_rows(&texts, 0), 3);
}

#[test]
fn centred_pads_both_sides() {
    assert_eq!(centred("Dark", 10), "   Dark   ");
    assert_eq!(centred("Dark", 9), "  Dark   ");
    assert_eq!(centred("Dark", 2), "Dark");
    assert_eq!(centred("é", 4), " é ");
}

#[test]
fn detail_lines_lay_out_a_check() {
    let check = Check {
        name: "plc on PATH".to_string(),
        status: Status::Fail,
        summary: "not found on PATH".to_string(),
        expected: "the plc compiler".to_string(),
        found: "no plc\r\nanywhere\n".to_string(),
        remedy: strings(&["Install it.", "Restart."]),
    };
    assert_eq!(
        detail_lines(&check),
        strings(&[
            " UNMET plc on PATH",
            "Requirement not met - not found on PATH",
            "",
            "Expected",
            "  the plc compiler",
            "",
            "Found",
            "  no plc",
            "  anywhere",
            "",
            "How to fix",
            "  - Install it.",
            "  - Restart.",
        ])
    );
    let met = Check { status: Status::Pass, remedy: Vec::new(), ..check };
    assert_eq!(detail_lines(&met).len(), 9);
    assert_eq!(body(""), Vec::<String>::new());
}

#[test]
fn change_text_names_both_verdicts() {
    let change = Change { label: "Tools / plc".to_string(), from: Status::Fail, to: Status::Pass, at: 5 };
    assert_eq!(change_text(&change), "Tools / plc UNMET -> MET");
}

#[test]
fn scroll_limit_counts_the_rows_that_do_not_fit() {
    assert_eq!(scroll_limit(30, 10), 20);
    assert_eq!(scroll_limit(5, 10), 0);
    assert_eq!(scroll_limit(10, 10), 0);
}

#[test]
fn the_banner_follows_the_worst_verdict() {
    assert_eq!(banner(0, 0, 0), ("  SCANNING  ".to_string(), Tone::Accent));
    assert_eq!(banner(5, 1, 2), ("  BUILD BLOCKED - 2 requirement(s) not met  ".to_string(), Tone::Fail));
    assert_eq!(banner(5, 3, 0), ("  BUILD READY - 3 warning(s)  ".to_string(), Tone::Warn));
    assert_eq!(banner(5, 0, 0), ("  BUILD READY  ".to_string(), Tone::Pass));
    assert_eq!(gauge_label(4, 9), "4/9 requirements met");
    assert_eq!(count_of(2, "unmet"), "2 unmet");
    assert_eq!(summary_title("Linux"), " Structured Text build requirements - Linux ");
}

#[test]
fn build_buttons_are_centred_and_spaced() {
    let list = targets();
    let pane = Rect { x: 10, y: 5, width: 40, height: 8 };
    let places = build_buttons(&list, pane);
    assert_eq!(places.len(), 4);
    assert_eq!(places[0], Rect { x: 10 + (40 - 27) / 2, y: 5, width: 27, height: 1 });
    assert_eq!(places[3].y, 11);
    let short = Rect { x: 0, y: 0, width: 10, height: 3 };
    let squeezed = build_buttons(&list, short);
    assert_eq!(squeezed[0], Rect { x: 0, y: 0, width: 10, height: 1 });
    assert_eq!(squeezed[2].y, 2);
    assert_eq!(squeezed[3], Rect::zero());
    assert_eq!(hint_row(&list, pane), Some(Rect { x: 10, y: 12, width: 40, height: 1 }));
    assert_eq!(hint_row(&list, Rect { x: 0, y: 0, width: 30, height: 4 }), None);
    let tall = Rect { x: 1, y: 0, width: 30, height: 10 };
    assert_eq!(hint_row(&list, tall), Some(Rect { x: 1, y: 9, width: 30, height: 1 }));
}

#[test]
fn the_theme_toggle_sits_at_the_right() {
    assert_eq!(toggle_layout(Rect { x: 0, y: 0, width: 19, height: 5 }), None);
    let (bar, dark, light) = toggle_layout(Rect { x: 0, y: 0, width: 80, height: 5 }).unwrap();
    assert_eq!(bar, Rect { x: 62, y: 0, width: 16, height: 1 });
    assert_eq!(dark, Rect { x: 63, y: 0, width: 6, height: 1 });
    assert_eq!(light, Rect { x: 70, y: 0, width: 7, height: 1 });
}
