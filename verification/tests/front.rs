use workshop::front::{Effect, EngineCall, Front, FrontEvent, KeyTarget, Screens};
use workshop::languages::{programming, spoken};
use workshop::ui::Key;

#[test]
fn front_starts_on_workshops() {
    let front = Front::new();
    assert_eq!(front.shown(), Some(Screens::Workshops));
    assert_eq!(front.depth(), 1);
}

#[test]
fn toggling_the_log_twice_restores_the_screen() {
    let mut front = Front::new();
    let (effects, go_on) = front.handle_ui_event(FrontEvent::ToggleLog);
    assert!(effects.is_empty());
    assert!(go_on);
    assert_eq!(front.shown(), Some(Screens::Log));
    assert_eq!(front.depth(), 2);
    let (effects, go_on) = front.handle_ui_event(FrontEvent::ToggleLog);
    assert!(effects.is_empty());
    assert!(go_on);
    assert_eq!(front.shown(), Some(Screens::Workshops));
    assert_eq!(front.depth(), 1);
}

#[test]
fn quit_stops_and_tells_the_engine() {
    let mut front = Front::new();
    let (effects, go_on) = front.handle_ui_event(FrontEvent::Quit);
    assert!(!go_on);
    assert_eq!(effects.len(), 1);
    assert!(matches!(effects[0], Effect::Engine(EngineCall::Quit)));
    assert_eq!(front.shown(), Some(Screens::Workshops));
}

#[test]
fn back_pops_and_tells_the_engine() {
    let mut front = Front::new();
    front.handle_ui_event(FrontEvent::ShowLicense);
    assert_eq!(front.shown(), Some(Screens::License));
    front.handle_ui_event(FrontEvent::ShowLicense);
    assert_eq!(front.depth(), 2);
    let (effects, go_on) = front.handle_ui_event(FrontEvent::Back);
    assert!(go_on);
    assert_eq!(effects.len(), 1);
    assert!(matches!(effects[0], Effect::Engine(EngineCall::Back)));
    assert_eq!(front.shown(), Some(Screens::Workshops));
    front.handle_ui_event(FrontEvent::Back);
    assert_eq!(front.shown(), None);
    let (effects, go_on) = front.handle_ui_event(FrontEvent::Back);
    assert!(effects.is_empty());
    assert!(go_on);
    assert_eq!(front.depth(), 0);
}

#[test]
fn spoken_choice_asks_default_then_returns() {
    let mut front = Front::new();
    let (effects, _) = front.handle_ui_event(FrontEvent::ChangeSpokenLanguage);
    assert_eq!(effects.len(), 1);
    assert!(matches!(effects[0], Effect::Engine(EngineCall::ChangeSpokenLanguage)));
    assert_eq!(front.shown(), Some(Screens::Spoken));
    let (effects, _) = front.handle_ui_event(FrontEvent::SetSpokenLanguage(Some(spoken::Code::fr)));
    assert!(effects.is_empty());
    assert_eq!(front.shown(), Some(Screens::SpokenSetDefault));
    let (effects, go_on) =
        front.handle_ui_event(FrontEvent::SetSpokenLanguageDefault(Some(spoken::Code::fr)));
    assert!(go_on);
    assert_eq!(effects.len(), 2);
    assert!(matches!(effects[0], Effect::SaveSpokenLanguage(Some(spoken::Code::fr))));
    assert!(matches!(effects[1], Effect::Engine(EngineCall::Back)));
    assert_eq!(front.shown(), Some(Screens::Workshops));
    assert_eq!(front.depth(), 1);
}

#[test]
fn programming_choice_asks_default_then_returns() {
    let mut front = Front::new();
    front.handle_ui_event(FrontEvent::ChangeProgrammingLanguage);
    assert_eq!(front.shown(), Some(Screens::Programming));
    front.handle_ui_event(FrontEvent::SetProgrammingLanguage(Some(programming::Code::rs)));
    assert_eq!(front.shown(), Some(Screens::ProgrammingSetDefault));
    let (effects, _) = front.handle_ui_event(FrontEvent::SetProgrammingLanguageDefault(None));
    assert_eq!(effects.len(), 2);
    assert!(matches!(effects[0], Effect::SaveProgrammingLanguage(None)));
    assert!(matches!(effects[1], Effect::Engine(EngineCall::Back)));
    assert_eq!(front.shown(), Some(Screens::Workshops));
}

#[test]
fn homepage_is_handed_on() {
    let mut front = Front::new();
    let (effects, _) = front.handle_ui_event(FrontEvent::Homepage("https://example.org".to_string()));
    assert_eq!(effects.len(), 1);
    match &effects[0] {
        Effect::OpenHomepage(u) => assert_eq!(u, "https://example.org"),
        _ => panic!("expected a homepage effect"),
    }
}

#[test]
fn keys_and_messages_are_routed() {
    let mut front = Front::new();
    assert_eq!(front.route_key(Key::Char('q')), KeyTarget::Quit);
    assert_eq!(front.route_key(Key::Char('Q')), KeyTarget::Quit);
    assert_eq!(front.route_key(Key::Char('`')), KeyTarget::ToggleLog);
    assert_eq!(front.route_key(Key::Enter), KeyTarget::Screen(Screens::Workshops));
    assert_eq!(front.route_message(true), Some(Screens::Log));
    assert_eq!(front.route_message(false), Some(Screens::Workshops));
    front.handle_ui_event(FrontEvent::Back);
    assert_eq!(front.route_key(Key::Down), KeyTarget::Nowhere);
    assert_eq!(front.route_message(false), None);
}
