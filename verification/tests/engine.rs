use workshop::engine::{
    select_lesson_message, select_workshop_message, Engine, Error, Fs, Message, Outgoing, Reply,
    Request,
};
use workshop::lessons::LessonMeta;
use workshop::models::lesson::Status as LessonStatus;
use workshop::models::workshop::{Status as WorkshopStatus, Workshop};
use workshop::languages::{programming, spoken};
use workshop::models::lesson::{LessonData, Loader as LessonLoader};
use workshop::models::workshop::{Defaults, WorkshopData};

fn workshop(name: &str, langs: Vec<(spoken::Code, Vec<programming::Code>)>) -> WorkshopData {
    let spoken: Vec<spoken::Code> = langs.iter().map(|(s, _)| *s).collect();
    WorkshopData::new(
        name.to_string(),
        format!("/data/{name}"),
        Defaults {
            spoken_language: spoken::Code::en,
            programming_language: programming::Code::rs,
        },
        spoken.clone(),
        langs.clone(),
        spoken,
        langs,
    )
}

fn workshops() -> Vec<WorkshopData> {
    vec![
        workshop(
            "alpha",
            vec![
                (spoken::Code::en, vec![programming::Code::rs, programming::Code::py]),
                (spoken::Code::fr, vec![programming::Code::rs]),
            ],
        ),
        workshop("beta", vec![(spoken::Code::es, vec![programming::Code::go])]),
    ]
}

fn lesson(name: &str) -> LessonData {
    LessonLoader::new(name)
        .path("/data/alpha/en/rs")
        .spoken_language(spoken::Code::en)
        .programming_language(programming::Code::rs)
        .try_load(true, true, true)
        .unwrap()
}

fn configured() -> Engine {
    let mut engine = Engine::new();
    let reply = engine.handle(Request::Config {
        data_dir: "/data".to_string(),
        pwd: "/work".to_string(),
        spoken_language: None,
        programming_language: None,
        workshops: Ok(workshops()),
    });
    match reply {
        Reply::ReadWorkshops(names) => {
            assert_eq!(names, vec!["alpha".to_string(), "beta".to_string()]);
        }
        _ => panic!("expected the workshop choice"),
    }
    engine
}

#[test]
fn engine_starts_unconfigured() {
    let mut engine = Engine::new();
    assert_eq!(engine.depth(), 1);
    assert!(engine.send_message().is_none());
    assert_eq!(engine.fs().data_dir, "");
}

#[test]
fn engine_config_filters_by_language() {
    let mut engine = Engine::new();
    let reply = engine.handle(Request::Config {
        data_dir: "/data".to_string(),
        pwd: "/work".to_string(),
        spoken_language: Some(spoken::Code::es),
        programming_language: None,
        workshops: Ok(workshops()),
    });
    match reply {
        Reply::ReadWorkshops(names) => {
            assert_eq!(names, vec!["beta".to_string()]);
            assert_eq!(engine.spoken_language(), Some(spoken::Code::es));
            assert_eq!(engine.programming_language(), None);
        }
        _ => panic!("expected the workshop choice"),
    }
    assert_eq!(engine.fs().data_dir, "/data");
    assert_eq!(engine.fs().pwd, "/work");
    assert_eq!(engine.depth(), 1);
}

#[test]
fn engine_config_twice_is_refused() {
    let mut engine = configured();
    let reply = engine.handle(Request::Config {
        data_dir: "/data".to_string(),
        pwd: "/work".to_string(),
        spoken_language: None,
        programming_language: None,
        workshops: Ok(workshops()),
    });
    match reply {
        Reply::Send(Message::Error { error }) => {
            assert_eq!(error, "Invalid engine state change SelectWorkshop -> config");
        }
        _ => panic!("expected an error"),
    }
    assert_eq!(engine.depth(), 2);
    // going back from the error returns to the workshop choice
    match engine.handle(Request::Back) {
        Reply::ReadWorkshops(_) => {}
        _ => panic!("expected the workshop choice"),
    }
    assert_eq!(engine.depth(), 1);
}

#[test]
fn engine_config_read_failure_is_reported() {
    let mut engine = Engine::new();
    let reply = engine.handle(Request::Config {
        data_dir: "/data".to_string(),
        pwd: "/work".to_string(),
        spoken_language: None,
        programming_language: None,
        workshops: Err(Error::WorkshopDataDirNotFound),
    });
    match reply {
        Reply::Send(Message::Error { error }) => {
            assert_eq!(error, "Workshop data directory not found");
        }
        _ => panic!("expected an error"),
    }
    assert_eq!(engine.depth(), 1);
}

#[test]
fn engine_description_is_told_once() {
    let mut engine = configured();
    let reply = engine.handle(Request::GetWorkshopDescription {
        name: "alpha".to_string(),
        text: Ok("All about alpha".to_string()),
    });
    match reply {
        Reply::Send(Message::ShowWorkshopDescription { name, text }) => {
            assert_eq!(name, "alpha");
            assert_eq!(text, "All about alpha");
        }
        _ => panic!("expected the description"),
    }
    assert_eq!(engine.depth(), 1);
}

#[test]
fn engine_setup_and_languages_are_told_once() {
    let mut engine = configured();
    match engine.handle(Request::GetWorkshopSetupInstructions {
        name: "beta".to_string(),
        text: Ok("Install Go".to_string()),
    }) {
        Reply::Send(Message::ShowWorkshopSetupInstructions { name, text }) => {
            assert_eq!(name, "beta");
            assert_eq!(text, "Install Go");
        }
        _ => panic!("expected the setup instructions"),
    }
    match engine.handle(Request::GetWorkshopSpokenLanguages { name: "alpha".to_string() }) {
        Reply::Send(Message::ShowWorkshopSpokenLanguages { spoken_languages, .. }) => {
            assert_eq!(spoken_languages, vec![spoken::Code::en, spoken::Code::fr]);
        }
        _ => panic!("expected the spoken languages"),
    }
    match engine.handle(Request::GetWorkshopProgrammingLanguages { name: "alpha".to_string() }) {
        Reply::Send(Message::ShowWorkshopProgrammingLanguages {
            programming_languages, ..
        }) => {
            assert_eq!(
                programming_languages,
                vec![programming::Code::py, programming::Code::rs]
            );
        }
        _ => panic!("expected the programming languages"),
    }
    assert_eq!(engine.depth(), 1);
}

#[test]
fn engine_unknown_workshop_is_reported() {
    let mut engine = configured();
    match engine.handle(Request::GetWorkshopSpokenLanguages { name: "gamma".to_string() }) {
        Reply::Send(Message::Error { error }) => assert_eq!(error, "Workshop not found: gamma"),
        _ => panic!("expected an error"),
    }
    assert_eq!(engine.depth(), 2);
}

#[test]
fn engine_license_stays_until_back() {
    let mut engine = configured();
    match engine.handle(Request::GetLicense {
        name: "alpha".to_string(),
        text: Ok("MIT".to_string()),
    }) {
        Reply::Send(Message::ShowLicense { text }) => assert_eq!(text, "MIT"),
        _ => panic!("expected the license"),
    }
    assert_eq!(engine.depth(), 2);
    match engine.handle(Request::Back) {
        Reply::ReadWorkshops(_) => {}
        _ => panic!("expected the workshop choice"),
    }
}

#[test]
fn engine_spoken_language_choice_asks_default() {
    let mut engine = configured();
    match engine.handle(Request::ChangeSpokenLanguage) {
        Reply::Send(Message::SelectSpokenLanguage {
            spoken_languages,
            spoken_language,
        }) => {
            assert_eq!(
                spoken_languages,
                vec![spoken::Code::en, spoken::Code::es, spoken::Code::fr]
            );
            assert_eq!(spoken_language, None);
        }
        _ => panic!("expected the spoken language choice"),
    }
    match engine.handle(Request::SetSpokenLanguage {
        spoken_language: Some(spoken::Code::fr),
        workshops: Ok(workshops()),
    }) {
        Reply::Send(Message::SetSpokenLanguageDefault { spoken_language }) => {
            assert_eq!(spoken_language, Some(spoken::Code::fr));
        }
        _ => panic!("expected the default question"),
    }
    assert_eq!(engine.spoken_language(), Some(spoken::Code::fr));
    match engine.handle(Request::Back) {
        Reply::ReadWorkshops(names) => {
            assert_eq!(names, vec!["alpha".to_string()]);
        }
        _ => panic!("expected the refreshed workshop choice"),
    }
}

#[test]
fn engine_programming_language_choice_asks_default() {
    let mut engine = configured();
    match engine.handle(Request::ChangeProgrammingLanguage) {
        Reply::Send(Message::SelectProgrammingLanguage {
            programming_languages, ..
        }) => {
            assert_eq!(
                programming_languages,
                vec![programming::Code::go, programming::Code::py, programming::Code::rs]
            );
        }
        _ => panic!("expected the programming language choice"),
    }
    match engine.handle(Request::SetProgrammingLanguage {
        programming_language: Some(programming::Code::go),
        workshops: Ok(workshops()),
    }) {
        Reply::Send(Message::SetProgrammingLanguageDefault { programming_language }) => {
            assert_eq!(programming_language, Some(programming::Code::go));
        }
        _ => panic!("expected the default question"),
    }
    assert_eq!(engine.programming_language(), Some(programming::Code::go));
}

#[test]
fn engine_workshop_and_lesson_choice() {
    let mut engine = configured();
    match engine.handle(Request::SetWorkshop {
        name: "alpha".to_string(),
        lessons: Ok(vec![lesson("01-intro"), lesson("02-next")]),
    }) {
        Reply::ReadLessons(names) => {
            assert_eq!(names, vec!["01-intro".to_string(), "02-next".to_string()]);
        }
        _ => panic!("expected the lesson choice"),
    }
    assert_eq!(engine.workshop(), Some("alpha"));
    assert!(engine.set_lesson("01-intro").is_ok());
    assert_eq!(engine.lesson(), Some("01-intro"));
    assert_eq!(engine.lessons().map(|l| l.len()), Some(2));
    // offering languages is refused while choosing a lesson
    match engine.handle(Request::ChangeSpokenLanguage) {
        Reply::Send(Message::Error { error }) => {
            assert_eq!(
                error,
                "Invalid engine state change SelectLesson -> change_spoken_language"
            );
        }
        _ => panic!("expected an error"),
    }
}

#[test]
fn engine_back_at_bottom_is_refused() {
    let mut engine = configured();
    match engine.handle(Request::Back) {
        Reply::Send(Message::Error { error }) => {
            assert_eq!(error, "Invalid engine state change SelectWorkshop -> back");
        }
        _ => panic!("expected an error"),
    }
}

#[test]
fn engine_quit_stops() {
    let mut engine = configured();
    assert!(matches!(engine.handle(Request::Quit), Reply::Stop));
    assert!(matches!(engine.send_message(), Some(Outgoing::Tell(Message::Quit))));
}

#[test]
fn engine_other_requests_change_nothing() {
    let mut engine = configured();
    assert!(matches!(
        engine.handle(Request::SetLesson { name: "01-intro".to_string() }),
        Reply::ReadWorkshops(_)
    ));
    assert_eq!(engine.depth(), 1);
    assert!(matches!(
        engine.handle(Request::Log { msg: "hello".to_string() }),
        Reply::ReadWorkshops(_)
    ));
    assert_eq!(engine.depth(), 1);
}

#[test]
fn engine_workshop_for_finds_by_name() {
    let engine = configured();
    assert_eq!(engine.workshop_for("beta").map(|w| w.get_name().to_string()), Some("beta".to_string()));
    assert!(engine.workshop_for("gamma").is_none());
}

#[test]
fn engine_error_messages() {
    assert_eq!(Error::Io("boom".to_string()).message(), "IO error: boom");
    assert_eq!(
        Error::InvalidStateChange("Nil".to_string(), "back".to_string()).message(),
        "Invalid engine state change Nil -> back"
    );
    assert_eq!(
        Error::WorkshopSetupNotFound("a".to_string(), "en".to_string(), "rs".to_string()).message(),
        "Workshop setup not found: a (en, rs)"
    );
    assert_eq!(Error::UiChannelClosed.message(), "UI Channel Closed");
}

#[test]
fn engine_fs_languages() {
    let mut fs = Fs::new();
    fs.set_data_dir("/data");
    fs.set_pwd("/work");
    assert_eq!(fs.data_dir, "/data");
    assert_eq!(fs.pwd, "/work");
    assert_eq!(
        fs.get_workshops_spoken_languages(Ok(workshops())).unwrap(),
        vec![spoken::Code::en, spoken::Code::es, spoken::Code::fr]
    );
    assert_eq!(
        fs.get_workshops_programming_languages(Ok(workshops())).unwrap(),
        vec![programming::Code::go, programming::Code::py, programming::Code::rs]
    );
    assert_eq!(
        fs.get_workshops_spoken_languages(Err(Error::WorkshopDataDirNotFound)),
        Err(Error::WorkshopDataDirNotFound)
    );
    let loaded = fs
        .get_workshops_data(Some(vec![
            Err(workshop::models::Error::WorkshopDataDirNotFound),
            Ok(workshop("alpha", vec![])),
        ]))
        .unwrap();
    assert_eq!(loaded.len(), 1);
    assert!(fs.get_workshops_data(None).is_err());
}

fn meta(title: &str) -> Workshop {
    Workshop {
        title: title.to_string(),
        authors: vec!["Ann".to_string()],
        copyright: "2024".to_string(),
        license: "MIT".to_string(),
        homepage: "https://example.org".to_string(),
        difficulty: "easy".to_string(),
        status: WorkshopStatus::NotStarted,
    }
}

#[test]
fn workshop_choice_carries_metadata() {
    let names = vec!["alpha".to_string(), "beta".to_string()];
    let m = select_workshop_message(
        names.clone(),
        vec![Ok(meta("Alpha")), Ok(meta("Beta"))],
        Some(spoken::Code::en),
        None,
    );
    match m {
        Ok(Message::SelectWorkshop { workshops, spoken_language, programming_language }) => {
            assert_eq!(workshops.len(), 2);
            assert_eq!(workshops[0].0, "alpha");
            assert_eq!(workshops[0].1.title, "Alpha");
            assert_eq!(workshops[1].0, "beta");
            assert_eq!(workshops[1].1.title, "Beta");
            assert_eq!(spoken_language, Some(spoken::Code::en));
            assert_eq!(programming_language, None);
        }
        _ => panic!("expected the workshop choice"),
    }
    let failed = select_workshop_message(
        names,
        vec![Ok(meta("Alpha")), Err(Error::WorkshopNotFound("beta".to_string()))],
        None,
        None,
    );
    assert!(matches!(failed, Err(Error::WorkshopNotFound(n)) if n == "beta"));
}

#[test]
fn lesson_choice_carries_metadata_and_texts() {
    let lesson_meta = |t: &str| LessonMeta {
        title: t.to_string(),
        description: format!("About {t}"),
        status: LessonStatus::NotStarted,
    };
    let names = vec!["01".to_string(), "02".to_string()];
    let m = select_lesson_message(
        names.clone(),
        vec![
            (Ok(lesson_meta("Intro")), Ok("# Intro".to_string())),
            (Ok(lesson_meta("Next")), Ok("# Next".to_string())),
        ],
        None,
        Some(programming::Code::rs),
    );
    match m {
        Ok(Message::SelectLesson { lessons, lesson_texts, programming_language, .. }) => {
            assert_eq!(lessons.len(), 2);
            assert_eq!(lessons[0].0, "01");
            assert_eq!(lessons[1].1.title, "Next");
            assert_eq!(lesson_texts, vec![("01".to_string(), "# Intro".to_string()), ("02".to_string(), "# Next".to_string())]);
            assert_eq!(programming_language, Some(programming::Code::rs));
        }
        _ => panic!("expected the lesson choice"),
    }
    let failed = select_lesson_message(
        names,
        vec![
            (Ok(lesson_meta("Intro")), Err(Error::Io("no text".to_string()))),
            (Err(Error::Io("no metadata".to_string())), Ok("# Next".to_string())),
        ],
        None,
        None,
    );
    assert!(matches!(failed, Err(Error::Io(e)) if e == "no text"));
}
