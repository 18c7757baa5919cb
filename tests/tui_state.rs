use cliscrape::tui::editor::{EditorKeyResult, KeyCode, KeyPress};
use cliscrape::cli::template_candidates;
use cliscrape::tui::app::{AppState, Mode, ParseStatus, ViewMode};
use cliscrape::tui::editor::{EditorBuffer, EditorState};
use cliscrape::tui::trace::{FilterState, SteppingMode};
use cliscrape::{FsmParser, TemplateFormat, TraceEventType};

fn lines(v: &[&str]) -> Vec<String> {
    v.iter().map(|s| s.to_string()).collect()
}

#[test]
fn editor_edits_and_content() {
    let mut b = EditorBuffer::new(lines(&["ab", "cd"]));
    b.move_right();
    b.insert_char('X');
    assert_eq!(b.lines, lines(&["aXb", "cd"]));
    b.insert_newline();
    assert_eq!(b.lines, lines(&["aX", "b", "cd"]));
    assert_eq!((b.cursor_row, b.cursor_col), (1, 0));
    b.backspace();
    assert_eq!(b.lines, lines(&["aXb", "cd"]));
    assert_eq!((b.cursor_row, b.cursor_col), (0, 2));
    b.move_down();
    assert_eq!((b.cursor_row, b.cursor_col), (1, 2));
    b.move_left();
    b.delete();
    assert_eq!(b.lines, lines(&["aXb", "c"]));
    assert_eq!(b.content_string(), "aXb\nc\n");
    let e = EditorBuffer::new(vec![]);
    assert_eq!(e.lines, lines(&[""]));
}

#[test]
fn editor_visibility_and_save() {
    let mut b = EditorBuffer::new(lines(&["a", "b", "c", "d", "e"]));
    b.cursor_row = 4;
    b.ensure_visible(2);
    assert_eq!(b.scroll_row, 3);
    let mut ed = EditorState::from_text("t.textfsm".to_string(), "x\ny\n");
    assert_eq!(ed.buf.lines, lines(&["x", "y", ""]));
    ed.dirty = true;
    ed.save(Err("disk full".to_string()));
    assert!(ed.dirty);
    ed.save(Ok(()));
    assert!(!ed.dirty);
}

#[test]
fn filter_matches_event_types() {
    let mut f = FilterState::default();
    assert!(f.matches(&TraceEventType::StateChange));
    f.show_state_changes = false;
    assert!(!f.matches(&TraceEventType::StateChange));
    assert!(f.matches(&TraceEventType::RecordEmitted));
}

#[test]
fn app_state_navigation() {
    let mut app = AppState::new(Some("t".to_string()), None);
    assert_eq!(app.mode, Mode::Picker);
    let p = FsmParser::from_str_with_format(
        "Value A (\\S+)\nValue B (\\S+)\n\nStart\n  ^A ${A} -> Two\n\nTwo\n  ^B ${B} -> Record Start\n",
        TemplateFormat::Textfsm,
    )
    .unwrap();
    let report = p.debug_parse("A 1\nB 2\nA 3\nB 4").unwrap();
    app.on_parse_started();
    assert_eq!(app.status, ParseStatus::Parsing);
    app.on_parse_done(report);
    assert_eq!(app.status, ParseStatus::Done);
    assert_eq!(app.lines.len(), 4);
    app.cursor_down();
    app.cursor_down();
    assert_eq!(app.cursor_line_idx, 2);
    app.cursor_up();
    assert_eq!(app.cursor_line_idx, 1);
    app.toggle_view_mode();
    assert_eq!(app.view_mode, ViewMode::Records);
    assert_eq!(app.selected_record_idx, 0);
    app.jump_to_next_record();
    let t = app.trace_index;
    assert_eq!(app.last_good.as_ref().unwrap().trace[t].event_type, TraceEventType::RecordEmitted);
    app.toggle_stepping_mode();
    assert_eq!(app.stepping_mode, SteppingMode::StateByState);
    app.jump_to_line(3);
    assert_eq!(app.last_good.as_ref().unwrap().trace[app.trace_index].line_idx, 3);
    app.toggle_watch("A".to_string());
    assert_eq!(app.watch_list, vec!["A".to_string()]);
    app.toggle_watch("A".to_string());
    assert!(app.watch_list.is_empty());
    app.on_parse_error("bad".to_string());
    assert_eq!(app.status, ParseStatus::Error);
    app.enter_edit_template(Err("cannot read".to_string()));
    assert_eq!(app.current_error, Some("cannot read".to_string()));
}

#[test]
fn editor_keys() {
    let mut ed = EditorState::from_text("t".to_string(), "ab\n");
    let k = |code| KeyPress { code, ctrl: false, alt: false };
    assert_eq!(ed.apply_key(k(KeyCode::Char('x'))), EditorKeyResult::Noop);
    assert!(ed.dirty);
    assert_eq!(ed.buf.lines[0], "xab");
    assert_eq!(ed.apply_key(k(KeyCode::Esc)), EditorKeyResult::Exit);
    assert_eq!(ed.apply_key(KeyPress { code: KeyCode::Char('s'), ctrl: true, alt: false }), EditorKeyResult::Save);
    ed.apply_key(k(KeyCode::Char('l')));
    assert_eq!(ed.buf.cursor_col, 2);
    ed.apply_key(k(KeyCode::Enter));
    assert_eq!(ed.buf.lines, lines(&["xa", "b", ""]));
}

#[test]
fn template_candidates_follow_format() {
    assert_eq!(
        template_candidates("show_ver", TemplateFormat::Auto),
        vec!["show_ver.textfsm", "show_ver.yaml", "show_ver.yml", "show_ver.toml"]
    );
    assert_eq!(template_candidates("x", TemplateFormat::Toml), vec!["x.toml"]);
}
