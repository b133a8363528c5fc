use workshop::describe::push_decimal;
use workshop::engine::{Message, Request};
use workshop::models::workshop::{Status as WorkshopStatus, Workshop};
use workshop::languages::spoken::Direction;
use workshop::languages::{programming, spoken};
use workshop::scrolllog::Scroll;
use workshop::workshops::Focus;

#[test]
fn decimal_numbers() {
    let mut s = String::from("n=");
    push_decimal(&mut s, 0);
    assert_eq!(s, "n=0");
    let mut s = String::new();
    push_decimal(&mut s, 9);
    assert_eq!(s, "9");
    let mut s = String::new();
    push_decimal(&mut s, 10);
    assert_eq!(s, "10");
    let mut s = String::new();
    push_decimal(&mut s, 1207);
    assert_eq!(s, "1207");
}

#[test]
fn message_lines() {
    let w = |t: &str| Workshop {
        title: t.to_string(),
        authors: vec![],
        copyright: String::new(),
        license: String::new(),
        homepage: String::new(),
        difficulty: String::new(),
        status: WorkshopStatus::NotStarted,
    };
    let m = Message::SelectWorkshop {
        workshops: vec![("a".to_string(), w("A")), ("b".to_string(), w("B")), ("c".to_string(), w("C"))],
        spoken_language: None,
        programming_language: None,
    };
    assert_eq!(m.to_string(), "SelectWorkshop with 3 workshops");
    let m = Message::ShowWorkshopDescription { name: "w".to_string(), text: "text".to_string() };
    assert_eq!(m.to_string(), "ShowWorkshopDescription: w text");
    let m = Message::ShowWorkshopSetupInstructions { name: "w".to_string(), text: "do".to_string() };
    assert_eq!(m.to_string(), "ShowWorkshopSetupInstructions: w do");
    let m = Message::ShowWorkshopSpokenLanguages {
        name: "w".to_string(),
        spoken_languages: vec![spoken::Code::en, spoken::Code::fr],
    };
    assert_eq!(m.to_string(), "ShowWorkshopSpokenLanguages: w with 2 languages");
    let m = Message::ShowWorkshopProgrammingLanguages {
        name: "w".to_string(),
        programming_languages: vec![programming::Code::rs],
    };
    assert_eq!(m.to_string(), "ShowWorkshopProgrammingLanguages: w with 1 languages");
    let m = Message::SelectLesson {
        lessons: vec![],
        lesson_texts: vec![],
        spoken_language: Some(spoken::Code::en),
        programming_language: None,
    };
    assert_eq!(m.to_string(), "SelectLesson with 0 lessons");
    let m = Message::ShowLicense { text: "MIT".to_string() };
    assert_eq!(m.to_string(), "ShowLicense: MIT");
    let m = Message::SelectSpokenLanguage {
        spoken_languages: vec![spoken::Code::en, spoken::Code::de, spoken::Code::es],
        spoken_language: None,
    };
    assert_eq!(m.to_string(), "SelectSpokenLanguage with 3 languages");
    let m = Message::SetSpokenLanguageDefault { spoken_language: Some(spoken::Code::de) };
    assert_eq!(m.to_string(), "SetSpokenLanguageDefault: Some(de)");
    let m = Message::SetSpokenLanguageDefault { spoken_language: None };
    assert_eq!(m.to_string(), "SetSpokenLanguageDefault: None");
    let m = Message::SelectProgrammingLanguage {
        programming_languages: vec![programming::Code::py, programming::Code::rs],
        programming_language: Some(programming::Code::py),
    };
    assert_eq!(m.to_string(), "SelectProgrammingLanguage with 2 languages");
    let m = Message::SetProgrammingLanguageDefault { programming_language: Some(programming::Code::py) };
    assert_eq!(m.to_string(), "SetProgrammingLanguageDefault: Some(py)");
    let m = Message::Error { error: "broken".to_string() };
    assert_eq!(m.to_string(), "Error: broken");
    assert_eq!(Message::Quit.to_string(), "Quit");
}

#[test]
fn request_lines() {
    let q = Request::Config {
        data_dir: "/d".to_string(),
        pwd: "/p".to_string(),
        spoken_language: None,
        programming_language: None,
        workshops: Ok(vec![]),
    };
    assert_eq!(q.to_string(), "Config message");
    let q = Request::GetWorkshopDescription { name: "w".to_string(), text: Ok("t".to_string()) };
    assert_eq!(q.to_string(), "GetWorkshopDescription for workshop: w");
    let q = Request::GetWorkshopSetupInstructions { name: "w".to_string(), text: Ok("t".to_string()) };
    assert_eq!(q.to_string(), "GetWorkshopSetupInstructions for workshop: w");
    let q = Request::GetWorkshopSpokenLanguages { name: "w".to_string() };
    assert_eq!(q.to_string(), "GetWorkshopSpokenLanguages for workshop: w");
    let q = Request::GetWorkshopProgrammingLanguages { name: "w".to_string() };
    assert_eq!(q.to_string(), "GetWorkshopProgrammingLanguages for workshop: w");
    let q = Request::GetLicense { name: "w".to_string(), text: Ok("t".to_string()) };
    assert_eq!(q.to_string(), "GetLicense for workshop: w");
    assert_eq!(Request::ChangeSpokenLanguage.to_string(), "ChangeSpokenLanguage");
    let q = Request::SetSpokenLanguage { spoken_language: Some(spoken::Code::fr), workshops: Ok(vec![]) };
    assert_eq!(q.to_string(), "SetSpokenLanguage: Some(fr)");
    assert_eq!(Request::ChangeProgrammingLanguage.to_string(), "ChangeProgrammingLanguage");
    let q = Request::SetProgrammingLanguage { programming_language: None, workshops: Ok(vec![]) };
    assert_eq!(q.to_string(), "SetProgrammingLanguage: None");
    let q = Request::SetWorkshop { name: "w".to_string(), lessons: Ok(vec![]) };
    assert_eq!(q.to_string(), "SetWorkshop: w");
    assert_eq!(Request::Back.to_string(), "Back");
    assert_eq!(Request::Quit.to_string(), "Quit");
    let q = Request::SetLesson { name: "01".to_string() };
    assert_eq!(q.to_string(), "SetLesson: 01");
    let q = Request::Log { msg: "hi".to_string() };
    assert_eq!(q.to_string(), "Log: hi");
}

#[test]
fn scroll_focus_and_direction_names() {
    assert_eq!(Scroll::Oldest.to_string(), "Oldest");
    assert_eq!(Scroll::MaybeOldest(3).to_string(), "MaybeOldest(3)");
    assert_eq!(Scroll::Offset(42).to_string(), "Offset(42)");
    assert_eq!(Scroll::MaybeNewest(0).to_string(), "MaybeNewest(0)");
    assert_eq!(Scroll::Newest.to_string(), "Newest");
    assert_eq!(Focus::List.to_string(), "List");
    assert_eq!(Focus::Metadata.to_string(), "Metadata");
    assert_eq!(Focus::Description.to_string(), "Description");
    assert_eq!(Focus::SetupInstructions.to_string(), "Setup Instructions");
    assert_eq!(Direction::LeftToRight.to_string(), "LeftToRight");
    assert_eq!(Direction::RightToLeft.to_string(), "RightToLeft");
}
