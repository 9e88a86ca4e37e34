use map_model::{DebugObjectsState, DisplayLogs, InputResult, KeyPress, LogScroller, Menu};

fn menu_fixture() -> Menu<u32> {
    Menu::new(
        "pick one",
        vec![
            ("alpha".to_string(), 1u32),
            ("beta".to_string(), 2u32),
            ("gamma".to_string(), 3u32),
        ],
    )
}

#[test]
fn menu_starts_at_first_choice() {
    let m = menu_fixture();
    assert_eq!(*m.current_choice(), 1);
}

#[test]
fn menu_arrows_saturate() {
    let mut m = menu_fixture();
    assert!(matches!(m.event(KeyPress::UpArrow), InputResult::StillActive));
    assert_eq!(*m.current_choice(), 1);
    m.event(KeyPress::DownArrow);
    m.event(KeyPress::DownArrow);
    m.event(KeyPress::DownArrow);
    assert_eq!(*m.current_choice(), 3);
}

#[test]
fn menu_enter_picks_current() {
    let mut m = menu_fixture();
    m.event(KeyPress::DownArrow);
    match m.event(KeyPress::Enter) {
        InputResult::Done(name, item) => {
            assert_eq!(name, "beta");
            assert_eq!(item, 2);
        },
        _ => panic!("expected Done"),
    }
}

#[test]
fn menu_escape_cancels() {
    let mut m = menu_fixture();
    assert!(matches!(m.event(KeyPress::Escape), InputResult::Canceled));
}

#[test]
fn menu_draw_shows_prompt_and_choices() {
    let m = menu_fixture();
    let t = m.draw(10);
    assert_eq!(t.lines.len(), 4);
    assert_eq!(t.lines[0].line, "pick one");
    assert!(t.lines[0].highlighted);
    assert_eq!(t.lines[1].line, "alpha");
    assert!(t.lines[1].highlighted);
    assert_eq!(t.lines[2].line, "beta");
    assert!(!t.lines[2].highlighted);
}

#[test]
fn log_scroller_keeps_most_recent() {
    let mut s = LogScroller::new_with_capacity(2);
    s.add_line("one");
    s.add_line("two");
    s.add_line("three");
    assert_eq!(s.lines, vec!["two".to_string(), "three".to_string()]);
}

#[test]
fn log_scroller_draw_shows_tail() {
    let mut s = LogScroller::new_with_capacity(10);
    s.add_line("a");
    s.add_line("b");
    s.add_line("c");
    let t = s.draw(2);
    assert_eq!(t.lines.len(), 2);
    assert_eq!(t.lines[0].line, "b");
    assert_eq!(t.lines[1].line, "c");
}

#[test]
fn format_log_line_shape() {
    assert_eq!(
        map_model::format_log_line("INFO", "core", "hello"),
        "[INFO] [core] hello"
    );
}

#[test]
fn display_logs_toggle() {
    let mut d = DisplayLogs::new();
    assert!(!d.active);
    assert!(d.event(true, false));
    assert!(d.active);
    assert!(!d.event(false, true));
    assert!(!d.active);
}

#[test]
fn debug_objects_modifier_tracking() {
    let mut d = DebugObjectsState::new();
    d.ambient_event(None, true, false);
    assert!(d.control_held);
    d.ambient_event(None, false, true);
    assert!(!d.control_held);
}

#[test]
fn u64_text_values() {
    assert_eq!(map_model::u64_to_text(0), "0");
    assert_eq!(map_model::u64_to_text(7), "7");
    assert_eq!(map_model::u64_to_text(1234567890), "1234567890");
}
