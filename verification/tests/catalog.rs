use workshop::models::lesson::loader_for_dir;
use workshop::text::join_path;
use workshop::catalog::{
    all_programming_languages, all_spoken_languages, all_workshops, all_workshops_filtered,
    get_all_languages, load, nearest_workshops_dir,
};
use workshop::languages::{programming, spoken};
use workshop::models::workshop::{
    programming_codes_in, spoken_codes_in, Defaults, Loader, WorkshopData,
};
use workshop::models::Error;

fn workshop(name: &str, langs: Vec<(spoken::Code, Vec<programming::Code>)>) -> WorkshopData {
    let spoken: Vec<spoken::Code> = langs.iter().map(|(s, _)| *s).collect();
    WorkshopData::new(
        name.to_string(),
        format!("/data/{name}"),
        Defaults {
            spoken_language: spoken::Code::en,
            programming_language: programming::Code::rs,
        },
        spoken.clone(),
        langs.clone(),
        spoken,
        langs,
    )
}

fn workshops() -> Vec<WorkshopData> {
    vec![
        workshop(
            "alpha",
            vec![
                (spoken::Code::fr, vec![programming::Code::rs]),
                (spoken::Code::en, vec![programming::Code::rs, programming::Code::py]),
            ],
        ),
        workshop(
            "beta",
            vec![(spoken::Code::en, vec![programming::Code::go, programming::Code::py])],
        ),
    ]
}

fn names(ws: &[WorkshopData]) -> Vec<String> {
    ws.iter().map(|w| w.get_name().to_string()).collect()
}

#[test]
fn catalog_filtered_workshops() {
    assert_eq!(names(&all_workshops_filtered(workshops(), None, None)), vec!["alpha", "beta"]);
    assert_eq!(
        names(&all_workshops_filtered(workshops(), Some(spoken::Code::fr), None)),
        vec!["alpha"]
    );
    assert_eq!(
        names(&all_workshops_filtered(
            workshops(),
            Some(spoken::Code::en),
            Some(programming::Code::go)
        )),
        vec!["beta"]
    );
    assert_eq!(
        names(&all_workshops_filtered(workshops(), None, Some(programming::Code::py))),
        vec!["alpha", "beta"]
    );
    assert!(all_workshops_filtered(workshops(), Some(spoken::Code::de), None).is_empty());
}

#[test]
fn catalog_languages_sorted_once() {
    assert_eq!(
        all_spoken_languages(&workshops()),
        vec![spoken::Code::en, spoken::Code::fr]
    );
    assert_eq!(
        all_programming_languages(&workshops()),
        vec![programming::Code::go, programming::Code::py, programming::Code::rs]
    );
}

#[test]
fn catalog_all_languages_merged() {
    let all = get_all_languages(&workshops());
    assert_eq!(all.len(), 2);
    let en = all.iter().find(|(s, _)| *s == spoken::Code::en).unwrap();
    assert_eq!(
        en.1,
        vec![programming::Code::go, programming::Code::py, programming::Code::rs]
    );
    let fr = all.iter().find(|(s, _)| *s == spoken::Code::fr).unwrap();
    assert_eq!(fr.1, vec![programming::Code::rs]);
}

#[test]
fn catalog_all_workshops_first_failure() {
    assert_eq!(all_workshops(None).err(), Some(Error::WorkshopDataDirNotFound));
    let ok = all_workshops(Some(vec![Ok(workshop("alpha", vec![]))])).unwrap();
    assert_eq!(names(&ok), vec!["alpha"]);
    let failed = all_workshops(Some(vec![
        Ok(workshop("alpha", vec![])),
        Err(Error::WorkshopLicenseNotFound("beta".to_string())),
        Err(Error::WorkshopDataDirNotFound),
    ]));
    assert_eq!(failed.err(), Some(Error::WorkshopLicenseNotFound("beta".to_string())));
}

#[test]
fn catalog_load_needs_the_directory() {
    assert!(load(None, "alpha", true).is_none());
    assert!(load(Some("/work/.workshops"), "alpha", false).is_none());
    assert!(load(Some("/work/.workshops"), "alpha", true).is_some());
}

#[test]
fn loader_codes_in_directory_names() {
    let names = vec![
        "fr".to_string(),
        "English".to_string(),
        "LICENSE".to_string(),
        "en".to_string(),
    ];
    assert_eq!(spoken_codes_in(&names), vec![spoken::Code::en, spoken::Code::fr]);
    let names = vec!["rs".to_string(), "Python".to_string(), "notes".to_string()];
    assert_eq!(
        programming_codes_in(&names),
        vec![programming::Code::py, programming::Code::rs]
    );
}

#[test]
fn loader_builds_workshop_data() {
    let loader = Loader::new("alpha").path("/data");
    let entries = vec!["en".to_string(), "defaults.yaml".to_string(), "fr".to_string()];
    let spoken = loader.spoken_languages(true, true, Some(&entries)).unwrap();
    assert_eq!(spoken, vec![spoken::Code::en, spoken::Code::fr]);
    let dirs = vec![
        Some(vec![("rs".to_string(), true), ("py".to_string(), false)]),
        Some(vec![("go".to_string(), true)]),
    ];
    let defaults = Defaults {
        spoken_language: spoken::Code::en,
        programming_language: programming::Code::rs,
    };
    let w = loader.try_load(defaults, &spoken, &dirs, true).unwrap();
    assert_eq!(w.get_name(), "alpha");
    assert_eq!(w.get_path(), "/data/alpha");
    assert_eq!(
        w.get_languages().clone(),
        vec![
            (spoken::Code::en, vec![programming::Code::py, programming::Code::rs]),
            (spoken::Code::fr, vec![programming::Code::go]),
        ]
    );
}

#[test]
fn loader_errors() {
    let entries = vec!["en".to_string()];
    assert_eq!(
        Loader::new("alpha").spoken_languages(true, true, Some(&entries)),
        Err(Error::WorkshopDataDirNotFound)
    );
    let loader = Loader::new("alpha").path("/data");
    assert_eq!(
        loader.spoken_languages(false, true, Some(&entries)),
        Err(Error::WorkshopNotFound("alpha".to_string()))
    );
    assert_eq!(
        loader.spoken_languages(true, false, Some(&entries)),
        Err(Error::WorkshopDefaultsNotFound("alpha".to_string()))
    );
    assert_eq!(
        loader.spoken_languages(true, true, None),
        Err(Error::WorkshopDataDirNotFound)
    );
    let defaults = Defaults {
        spoken_language: spoken::Code::en,
        programming_language: programming::Code::rs,
    };
    let spoken = vec![spoken::Code::en, spoken::Code::fr];
    let dirs = vec![Some(vec![("rs".to_string(), true)]), None];
    assert_eq!(
        loader.try_load(defaults, &spoken, &dirs, true).err(),
        Some(Error::WorkshopDataSpokenDirNotFound("French".to_string()))
    );
    let dirs = vec![Some(vec![("rs".to_string(), true)]), Some(vec![])];
    assert_eq!(
        loader.try_load(defaults, &spoken, &dirs, false).err(),
        Some(Error::WorkshopLicenseNotFound("alpha".to_string()))
    );
}

#[test]
fn workshop_root_is_the_data_directory_joined_with_the_name() {
    assert_eq!(join_path("/data", "alpha"), "/data/alpha");
    assert_eq!(join_path("/data/", "alpha"), "/data/alpha");
    assert_eq!(join_path("", "alpha"), "alpha");
    assert_eq!(join_path("/data", "/abs"), "/abs");
}

#[test]
fn lesson_directory_layout_is_spoken_programming_lesson() {
    let parts: Vec<String> = vec!["W".into(), "en".into(), "rs".into(), "01-intro".into()];
    let loader = loader_for_dir(&parts, "W/en/rs/01-intro").ok().unwrap();
    let lesson = loader.try_load(true, true, true).ok().unwrap();
    assert_eq!(lesson.get_name(), "01-intro");
    assert_eq!(lesson.get_spoken_language(), spoken::Code::en);
    assert_eq!(lesson.get_programming_language(), programming::Code::rs);
    assert_eq!(lesson.get_path(), "W/en/rs/01-intro");
    let swapped: Vec<String> = vec!["W".into(), "rs".into(), "en".into(), "01-intro".into()];
    assert!(matches!(loader_for_dir(&swapped, "W/rs/en/01-intro"), Err(Error::NoSpokenLanguageSpecified)));
    let short: Vec<String> = vec!["rs".into(), "01-intro".into()];
    assert!(matches!(loader_for_dir(&short, "rs/01-intro"), Err(Error::NoSpokenLanguageSpecified)));
    let bad: Vec<String> = vec!["en".into(), "zz9".into(), "01-intro".into()];
    assert!(matches!(loader_for_dir(&bad, "en/zz9/01-intro"), Err(Error::NoProgrammingLanguageSpecified)));
}

#[test]
fn nearest_workshops_directory_wins() {
    assert_eq!(nearest_workshops_dir(&vec![false, true, true]), Some(1));
    assert_eq!(nearest_workshops_dir(&vec![true]), Some(0));
    assert_eq!(nearest_workshops_dir(&vec![false, false]), None);
    assert_eq!(nearest_workshops_dir(&vec![]), None);
}

#[test]
fn merged_languages_are_listed_once() {
    let a = workshop("a", vec![(spoken::Code::en, vec![programming::Code::rs, programming::Code::py])]);
    let b = workshop("b", vec![(spoken::Code::en, vec![programming::Code::py, programming::Code::go])]);
    let c = workshop("c", vec![(spoken::Code::fr, vec![programming::Code::rs, programming::Code::py])]);
    let all = get_all_languages(&vec![a, b, c]);
    assert_eq!(all.len(), 2);
    assert_eq!(all[0].0, spoken::Code::en);
    assert_eq!(
        all[0].1,
        vec![programming::Code::go, programming::Code::py, programming::Code::rs]
    );
    assert_eq!(all[1].0, spoken::Code::fr);
    assert_eq!(all[1].1, vec![programming::Code::rs, programming::Code::py]);
}
