use workshop::dialogs::{welcome_input, Programming, SetDefault, Spoken};
use workshop::languages::{programming, programming_name, spoken, spoken_name};
use workshop::lesson_screen::{all_lessons_completed, solution_complete, status_on_open, Lesson};
use workshop::lessons::{LessonMeta, Lessons};
use workshop::markdown::{Content, Hint, ParagraphBlock};
use workshop::models::lesson::Status as LessonStatus;
use workshop::models::workshop::{Status as WorkshopStatus, Workshop};
use workshop::ui::{Key, Screens, UiEvent};
use workshop::workshops::metadata_for;

#[test]
fn spoken_picker_selects_current_language() {
    let mut picker = Spoken::new();
    picker.init(
        vec![spoken::Code::en, spoken::Code::fr],
        Some(spoken::Code::fr),
        true,
        None,
    );
    assert_eq!(
        picker.language_names(),
        vec!["Any".to_string(), "English".to_string(), "French".to_string()]
    );
    assert_eq!(picker.language_from_selection(0), None);
    assert_eq!(picker.language_from_selection(1), Some(spoken::Code::en));
    match picker.handle_input_event(Key::Enter) {
        Some((None, e)) => match *e {
            UiEvent::SetSpokenLanguage(lang, None, None) => {
                assert_eq!(lang, Some(spoken::Code::fr))
            }
            _ => panic!("expected the chosen language"),
        },
        _ => panic!("expected an event"),
    }
    match picker.handle_input_event(Key::Esc) {
        Some((Some(Screens::Workshops), e)) => assert!(matches!(*e, UiEvent::LoadWorkshops)),
        _ => panic!("expected going back to the workshops"),
    }
}

#[test]
fn programming_picker_moves_selection() {
    let mut picker = Programming::new();
    picker.init(
        vec![programming::Code::py, programming::Code::rs],
        None,
        false,
        None,
    );
    assert_eq!(
        picker.language_names(),
        vec!["Python".to_string(), "Rust".to_string()]
    );
    assert!(picker.handle_input_event(Key::Down).is_none());
    match picker.handle_input_event(Key::Enter) {
        Some((None, e)) => match *e {
            UiEvent::SetProgrammingLanguage(lang, None, None) => {
                assert_eq!(lang, Some(programming::Code::rs))
            }
            _ => panic!("expected the chosen language"),
        },
        _ => panic!("expected an event"),
    }
}

#[test]
fn set_default_answers() {
    let mut dialog = SetDefault::new();
    let yes = (None, Box::new(UiEvent::Quit));
    let no = (None, Box::new(UiEvent::ToggleLog));
    dialog.init("Set as Default?".to_string(), None, Some(yes), Some(no));
    assert_eq!(dialog.answers(), vec!["Yes".to_string(), "No".to_string()]);
    dialog.handle_input_event(Key::Down);
    match dialog.handle_input_event(Key::Enter) {
        Some((None, e)) => assert!(matches!(*e, UiEvent::ToggleLog)),
        _ => panic!("expected the answer"),
    }
    assert!(dialog.handle_input_event(Key::Enter).is_none());
}

#[test]
fn welcome_keys() {
    assert!(welcome_input(Key::Char('x')).is_none());
    match welcome_input(Key::Enter) {
        Some(_) => {}
        None => panic!("enter leaves the welcome screen"),
    }
}

#[test]
fn language_display_names() {
    assert_eq!(spoken_name(Some(spoken::Code::en)), "English");
    assert_eq!(spoken_name(None), "Any");
    assert_eq!(programming_name(Some(programming::Code::rs)), "Rust");
    assert_eq!(programming_name(None), "Any");
}

fn meta(title: &str, status: LessonStatus) -> LessonMeta {
    LessonMeta {
        title: title.to_string(),
        description: format!("About {title}"),
        status,
    }
}

#[test]
fn lessons_listing() {
    let mut lessons = Lessons::new();
    lessons.init(
        vec![
            ("01-a".to_string(), meta("Intro", LessonStatus::Completed)),
            ("02-b".to_string(), meta("Next", LessonStatus::NotStarted)),
        ],
        "Workshop",
        Some(spoken::Code::en),
        Some(programming::Code::rs),
    );
    assert_eq!(
        lessons.titles(),
        &vec!["✅ Intro".to_string(), "   Next".to_string()]
    );
    assert_eq!(lessons.get_selected_lesson_key(), Some("02-b".to_string()));
    assert!(lessons.can_select_lesson(0));
    assert_eq!(lessons.info_text(), "About Next");
    match lessons.handle_input_event(Key::Enter) {
        Some((None, e)) => match *e {
            UiEvent::SetLesson(Some(k)) => assert_eq!(k, "02-b"),
            _ => panic!("expected the lesson"),
        },
        _ => panic!("expected an event"),
    }
    match lessons.handle_input_event(Key::Char('b')) {
        Some((None, e)) => assert!(matches!(*e, UiEvent::SetWorkshop(None, _))),
        _ => panic!("expected going back"),
    }
}

#[test]
fn lesson_statuses() {
    assert_eq!(status_on_open(LessonStatus::NotStarted), Some(LessonStatus::InProgress));
    assert_eq!(status_on_open(LessonStatus::Completed), None);
    assert!(all_lessons_completed(&vec![LessonStatus::Completed, LessonStatus::Completed]));
    assert!(!all_lessons_completed(&vec![LessonStatus::Completed, LessonStatus::InProgress]));
    assert!(all_lessons_completed(&vec![]));
    assert_eq!(LessonStatus::InProgress.as_str(), "In Progress");
}

#[test]
fn lesson_screen_refuses_unrenderable_text() {
    let mut screen = Lesson::new();
    assert!(screen.try_init("W", "L", "# Title\n\nText", None, None));
    assert_eq!(screen.lesson_state().content().len(), 2);
    assert!(screen.handle_input_event(Key::Down).is_none());
}

#[test]
fn hint_toggles() {
    let mut hint = Hint::new(
        "Tip".to_string(),
        vec![Content::Paragraph(ParagraphBlock { text: "x".to_string() })],
    );
    assert!(!hint.expanded);
    hint.toggle();
    assert!(hint.expanded);
    hint.toggle();
    assert!(!hint.expanded);
}

#[test]
fn workshop_metadata_text() {
    let w = Workshop {
        title: "Alpha".to_string(),
        authors: vec!["Ann".to_string(), "Bob".to_string()],
        copyright: "2024".to_string(),
        license: "MIT".to_string(),
        homepage: "https://example.org".to_string(),
        difficulty: "Easy".to_string(),
        status: WorkshopStatus::NotStarted,
    };
    let text = metadata_for(
        &w,
        &vec![(spoken::Code::en, vec![programming::Code::rs, programming::Code::py])],
    );
    assert_eq!(
        text,
        "Status: Not Started\nAuthors:  - Ann\n - Bob\nCopyright: 2024\nLicense: MIT\nHomepage: https://example.org\nDifficulty: Easy\nLanguages:\n - English: Rust, Python"
    );
}

#[test]
fn completed_lesson_opens_again() {
    let mut lessons = Lessons::new();
    lessons.init(
        vec![
            ("01-a".to_string(), meta("Intro", LessonStatus::Completed)),
            ("02-b".to_string(), meta("Next", LessonStatus::Completed)),
            ("03-c".to_string(), meta("Last", LessonStatus::NotStarted)),
        ],
        "Workshop",
        None,
        None,
    );
    // listed by displayed title: "   Last", "✅ Intro", "✅ Next"
    lessons.handle_input_event(Key::PageDown);
    assert_eq!(lessons.get_selected_lesson_key(), Some("02-b".to_string()));
    assert!(lessons.is_lesson_completed(2));
    match lessons.handle_input_event(Key::Enter) {
        Some((None, e)) => match *e {
            UiEvent::SetLesson(Some(k)) => assert_eq!(k, "02-b"),
            _ => panic!("expected the lesson"),
        },
        _ => panic!("expected an event"),
    }
    lessons.handle_input_event(Key::Up);
    assert_eq!(lessons.get_selected_lesson_key(), Some("01-a".to_string()));
    assert!(lessons.handle_input_event(Key::Enter).is_none());
}

#[test]
fn completing_a_solution_marks_lesson_and_workshop() {
    let names = vec!["01-a".to_string(), "02-b".to_string()];
    let done = solution_complete(
        "02-b",
        &names,
        &vec![LessonStatus::Completed, LessonStatus::InProgress],
    )
    .unwrap();
    assert_eq!(done.index, 1);
    assert!(done.workshop_completed);
    match (done.event.0, *done.event.1) {
        (Some(Screens::Log), UiEvent::CommandCompleted(r, Some(_), None)) => {
            assert!(r.success);
            assert_eq!(r.exit_code, 0);
            assert_eq!(r.last_line, "All lessons completed!");
        }
        _ => panic!("expected the workshop to be reported completed"),
    }
    let done = solution_complete(
        "01-a",
        &names,
        &vec![LessonStatus::InProgress, LessonStatus::NotStarted],
    )
    .unwrap();
    assert_eq!(done.index, 0);
    assert!(!done.workshop_completed);
    match (done.event.0, *done.event.1) {
        (None, UiEvent::HideLog(Some((Some(Screens::Lessons), e)))) => {
            assert!(matches!(*e, UiEvent::LoadLessons))
        }
        _ => panic!("expected the lessons to reload"),
    }
    assert!(solution_complete("03-c", &names, &vec![LessonStatus::Completed; 2]).is_none());
}
