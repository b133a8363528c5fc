use std::collections::VecDeque;
use workshop::command::{
    command_end_events, command_info, command_start_events, docker_env_paths, CommandResult,
    OutputTracker, PathError, Stream,
};
use workshop::logscreen::{emoji, message_splittable, Log};
use workshop::scrolllog::{all_log_lines, ScrollLog};
use workshop::scrolltext::{settle, Scroll, ScrollBox};
use workshop::sorted::{text_less, SortedMap};
use workshop::statusbar::{throbber_char, BarContent, StatusBar};
use workshop::text::{has_prefix, is_whitespace, join, trim, trim_start};
use workshop::ui::{Screens, StatusMode, UiEvent};

fn strings(v: &[&str]) -> Vec<String> {
    v.iter().map(|s| s.to_string()).collect()
}

#[test]
fn text_helpers() {
    assert_eq!(join(&strings(&["a", "b", "c"]), ", "), "a, b, c");
    assert_eq!(join(&strings(&[]), ", "), "");
    assert!(has_prefix("Hint - x", "Hint"));
    assert!(!has_prefix("Hi", "Hint"));
    assert_eq!(trim_start("  \t hello "), "hello ");
}

#[test]
fn command_line_reported() {
    assert_eq!(
        command_info("python3", &strings(&["deps.py", "--quiet"])),
        "python3 deps.py --quiet"
    );
    assert_eq!(command_info("ls", &strings(&[])), "ls ");
}

#[test]
fn command_output_tracking() {
    let mut t = OutputTracker::new(true);
    assert_eq!(t.line(Stream::Stdout, "one".to_string()), None);
    assert_eq!(t.line(Stream::Stdout, "two".to_string()), Some("one".to_string()));
    assert_eq!(t.line(Stream::Stderr, "oops".to_string()), None);
    let r: CommandResult = t.finish(true, Some(0));
    assert!(r.success);
    assert_eq!(r.exit_code, 0);
    assert_eq!(r.last_line, "two");

    let mut quiet = OutputTracker::new(false);
    quiet.line(Stream::Stderr, "first".to_string());
    assert_eq!(quiet.line(Stream::Stderr, "second".to_string()), None);
    let r = quiet.finish(false, None);
    assert_eq!(r.exit_code, -1);
    assert_eq!(r.last_line, "second");

    let r = OutputTracker::new(false).finish(false, Some(2));
    assert_eq!(r.last_line, "");
}

#[test]
fn command_docker_paths() {
    let dir = strings(&["/", "home", "me", ".workshops", "w", "en", "rs", "01"]);
    let (root, rel) = docker_env_paths(&dir).unwrap();
    assert_eq!(root, strings(&["/", "home", "me"]));
    assert_eq!(rel, strings(&[".workshops", "w", "en", "rs", "01"]));
    assert_eq!(
        docker_env_paths(&strings(&["/", "tmp", "lesson"])),
        Err(PathError::NoWorkshopsDirectory)
    );
}

#[test]
fn statusbar_modes() {
    assert_eq!(throbber_char(0), '⠋');
    assert_eq!(throbber_char(150), '⠙');
    assert_eq!(throbber_char(1000), '⠋');
    let mut bar = StatusBar::new();
    assert!(matches!(bar.content(0), BarContent::Blank));
    bar.set_messages("checking".to_string());
    assert_eq!(bar.mode(), StatusMode::Messages);
    match bar.content(150) {
        BarContent::Text(t) => assert_eq!(t, "⠙ checking"),
        _ => panic!("expected text"),
    }
    bar.update_progress(None, 50);
    assert_eq!(bar.progress(), 0);
    bar.set_progress("installing".to_string());
    bar.update_progress(Some("half".to_string()), 250);
    assert_eq!(bar.progress(), 100);
    match bar.content(0) {
        BarContent::Gauge(p, t) => {
            assert_eq!(p, 100);
            assert_eq!(t, "⠋ half");
        }
        _ => panic!("expected a gauge"),
    }
    bar.update_message("ignored".to_string());
    assert_eq!(bar.message(), "half");
    bar.set_blank();
    assert_eq!(bar.mode(), StatusMode::Blank);
}

#[test]
fn sorted_map_orders_keys() {
    let mut m: SortedMap<u32> = SortedMap::new();
    m.insert("b".to_string(), 2);
    m.insert("a".to_string(), 1);
    m.insert("c".to_string(), 3);
    m.insert("b".to_string(), 20);
    assert_eq!(m.len(), 3);
    assert_eq!(m.keys(), strings(&["a", "b", "c"]));
    assert_eq!(m.find("b"), Some(1));
    assert_eq!(m.find("z"), None);
    assert_eq!(m.entries()[1].1, 20);
    assert!(text_less("abc", "abd"));
    assert!(text_less("ab", "abc"));
    assert!(!text_less("b", "a"));
}

#[test]
fn screens_numbers_and_names() {
    let all = Screens::iter();
    assert_eq!(all.len(), 9);
    for (i, s) in all.iter().enumerate() {
        assert_eq!(s.to_u8() as usize, i);
        assert_eq!(Screens::from_u8(i as u8), *s);
    }
    assert_eq!(Screens::SetDefault.name(), "Set Default");
    assert_eq!(Screens::Lesson.name(), "Lesson");
}

#[test]
fn scroll_settles() {
    assert_eq!(settle(Scroll::Top, 100, 10), (Scroll::Top, 0));
    assert_eq!(settle(Scroll::Bottom, 100, 10), (Scroll::Bottom, 90));
    assert_eq!(settle(Scroll::MaybeBottom(95), 100, 10), (Scroll::Bottom, 90));
    let mut b = ScrollBox::default();
    b.set_text("hello world");
    assert_eq!(b.get_text(), "hello world");
    b.scroll_bottom();
    assert_eq!(b.scroll_state().get_scroll(), Scroll::Bottom);
    b.scroll_top();
    assert_eq!(b.scroll_state().get_scroll(), Scroll::Top);
    let lines = b.layout(20, 5);
    assert_eq!(lines, strings(&["hello world"]));
}

#[test]
fn log_emoji_prefixes() {
    assert_eq!(emoji("v "), Some("✅".to_string()));
    assert_eq!(emoji("r "), Some("🚀".to_string()));
    assert_eq!(emoji("zz"), None);
}

#[test]
fn log_keeps_at_most_its_limit() {
    let mut log = Log::new(2);
    log.handle_ui_event(UiEvent::Log("v one".to_string()));
    log.handle_ui_event(UiEvent::Log("x two".to_string()));
    log.handle_ui_event(UiEvent::Log("plain three".to_string()));
    log.handle_ui_event(UiEvent::Log("!".to_string()));
    let entries: Vec<(Option<String>, String)> = log.entries().iter().cloned().collect();
    assert_eq!(
        entries,
        vec![
            (Some("❌".to_string()), "two".to_string()),
            (None, "ain three".to_string()),
        ]
    );
    let lines = all_log_lines(log.entries(), 40);
    assert_eq!(lines, strings(&["❌ two", "   ain three"]));
}

#[test]
fn log_command_progress() {
    let mut log = Log::new(10);
    log.handle_ui_event(UiEvent::CommandStarted(StatusMode::Progress, "install".to_string()));
    log.handle_ui_event(UiEvent::CommandOutput("i half way".to_string(), Some(50)));
    assert_eq!(log.status_bar().progress(), 50);
    assert_eq!(log.status_bar().message(), "i half way");
    let mut empty: VecDeque<(Option<String>, String)> = VecDeque::new();
    empty.push_back((None, "x".to_string()));
    assert_eq!(all_log_lines(&empty, 10), strings(&["   x"]));
}

#[test]
fn running_a_command_shows_the_log_and_hides_it_on_success() {
    let start = command_start_events("ls -l".to_string());
    assert_eq!(start.len(), 2);
    assert!(matches!((start[0].0, &*start[0].1), (None, UiEvent::ShowLog(None))));
    match (start[1].0, &*start[1].1) {
        (Some(Screens::Log), UiEvent::CommandStarted(StatusMode::Messages, info)) => {
            assert_eq!(info, "ls -l")
        }
        _ => panic!("expected the command to be reported"),
    }
    let ok = command_end_events(true);
    assert_eq!(ok.len(), 1);
    assert!(matches!((ok[0].0, &*ok[0].1), (None, UiEvent::HideLog(None))));
    assert!(command_end_events(false).is_empty());
}

#[test]
fn whitespace_matches_the_standard_library() {
    for u in 0u32..=0x10FFFF {
        if let Some(c) = char::from_u32(u) {
            assert_eq!(is_whitespace(c), c.is_whitespace(), "U+{u:04X}");
        }
    }
}

#[test]
fn trim_matches_the_standard_library() {
    for s in ["", "   ", "  a b \t", "\u{3000}x\u{a0}", "x", " \u{200b} ", "\n\nline\r\n"] {
        assert_eq!(trim(s), s.trim());
    }
}

#[test]
fn log_messages_split_after_two_bytes() {
    assert!(message_splittable(""));
    assert!(message_splittable("x"));
    assert!(message_splittable("i message"));
    assert!(message_splittable("é rest"));
    assert!(!message_splittable("xé"));
    assert!(!message_splittable("✅ done"));
}

#[test]
fn log_layout_fits_unless_scrolled_past_oldest() {
    let mut log = ScrollLog::default();
    assert!(log.layout_fits_now(100, 10));
    assert!(log.layout_fits_now(5, 10));
    log.scroll_newer();
    log.scroll_older();
    assert!(log.layout_fits_now(100, 10));
    assert_eq!(log.layout(100, 10), (89, 99, 1));
    for _ in 0..95 {
        log.scroll_older();
    }
    assert!(log.layout_fits_now(100, 10));
}
