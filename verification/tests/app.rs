use workshop::app::{install_plan, Action, App, Job, KeyRoute, MissingTool, Step};
use workshop::languages::{programming, spoken};
use workshop::ui::{Key, Screens, UiEvent};

#[test]
fn app_keys_route() {
    let mut app = App::new();
    assert_eq!(app.handle_input_event(Key::Char('`')), KeyRoute::ToggleLog);
    assert_eq!(app.handle_input_event(Key::Down), KeyRoute::Screen(app.screen()));
    assert!(!app.quitting());
    assert_eq!(app.handle_input_event(Key::Char('Q')), KeyRoute::Quit);
    assert!(app.quitting());
}

#[test]
fn app_toggle_log_twice_restores() {
    let mut app = App::new();
    let before = app.log_shown();
    assert!(app.handle_ui_event(None, UiEvent::ToggleLog, None, None).is_empty());
    assert_eq!(app.log_shown(), !before);
    assert_eq!(app.handle_input_event(Key::Enter), KeyRoute::Screen(Screens::Log));
    app.handle_ui_event(None, UiEvent::ToggleLog, None, None);
    assert_eq!(app.log_shown(), before);
}

#[test]
fn app_addressed_events_pass_through() {
    let mut app = App::new();
    let actions = app.handle_ui_event(Some(Screens::Lessons), UiEvent::LoadLessons, None, None);
    assert_eq!(actions.len(), 1);
    assert!(matches!(
        &actions[0],
        Action::Forward(Screens::Lessons, UiEvent::LoadLessons)
    ));
}

#[test]
fn app_show_switches_screen() {
    let mut app = App::new();
    app.handle_ui_event(None, UiEvent::Show(Screens::Lesson), None, None);
    assert_eq!(app.screen(), Screens::Lesson);
    assert_eq!(app.drawn_screen(), Screens::Lesson);
    app.handle_ui_event(None, UiEvent::ShowLog(None), None, None);
    assert_eq!(app.drawn_screen(), Screens::Log);
}

#[test]
fn app_language_choice_asks_default() {
    let mut app = App::new();
    let actions = app.handle_ui_event(
        None,
        UiEvent::SetSpokenLanguage(Some(spoken::Code::fr), None, None),
        None,
        None,
    );
    assert_eq!(actions.len(), 2);
    assert!(matches!(
        actions[0],
        Action::SetSpokenLanguage(Some(spoken::Code::fr), false)
    ));
    match &actions[1] {
        Action::Send((Some(Screens::SetDefault), e)) => match &**e {
            UiEvent::SetDefault(title, Some(_), Some(_)) => assert_eq!(title, "Set as Default?"),
            _ => panic!("expected the default question"),
        },
        _ => panic!("expected the default question"),
    }
    let actions = app.handle_ui_event(
        None,
        UiEvent::SetProgrammingLanguage(Some(programming::Code::py), Some(true), None),
        None,
        None,
    );
    assert_eq!(actions.len(), 1);
    assert!(matches!(
        actions[0],
        Action::SetProgrammingLanguage(Some(programming::Code::py), true)
    ));
}

#[test]
fn app_workshop_needs_languages() {
    let mut app = App::new();
    let actions = app.handle_ui_event(
        None,
        UiEvent::SetWorkshop(Some("alpha".to_string()), vec![]),
        None,
        None,
    );
    assert_eq!(actions.len(), 1);
    assert!(matches!(&actions[0], Action::Send((Some(Screens::Spoken), _))));
    let actions = app.handle_ui_event(
        None,
        UiEvent::SetWorkshop(Some("alpha".to_string()), vec![]),
        Some(spoken::Code::en),
        Some(programming::Code::rs),
    );
    assert_eq!(actions.len(), 3);
    assert!(matches!(&actions[0], Action::SetWorkshop(Some(w)) if w == "alpha"));
    assert!(matches!(&actions[1], Action::InitDataDir(w) if w == "alpha"));
    assert!(matches!(&actions[2], Action::Send((None, _))));
}

#[test]
fn app_install_needs_git() {
    assert_eq!(
        install_plan("https://example.org/w.git".to_string(), None, None).err(),
        Some(MissingTool::NoGitExecutable)
    );
    let steps = install_plan(
        "https://example.org/w.git".to_string(),
        Some("git".to_string()),
        None,
    )
    .ok()
    .unwrap();
    assert_eq!(steps.len(), 3);
    match &steps[1] {
        Step::Send((Some(Screens::Log), e)) => match &**e {
            UiEvent::Log(m) => assert_eq!(m, "r Installing workshop from: https://example.org/w.git"),
            _ => panic!("expected a log line"),
        },
        _ => panic!("expected a log line"),
    }
    assert!(matches!(&steps[2], Step::Run(Job::Install { git, .. }) if git == "git"));
}
