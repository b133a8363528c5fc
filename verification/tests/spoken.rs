use workshop::languages::spoken::{
    get_language_code, get_language_code_from_name, Code, Direction, Language,
};

#[test]
fn spoken_test_get_language_code_from_name() {
    assert_eq!(get_language_code_from_name("English"), Some(Code::en));
    assert_eq!(get_language_code_from_name("Arabic"), Some(Code::ar));
    assert_eq!(get_language_code_from_name("Swahili"), Some(Code::sw));
    assert_eq!(get_language_code_from_name("Unknown"), None);
}

#[test]
fn spoken_test_get_language_code() {
    assert_eq!(get_language_code("en"), Some(Code::en));
    assert_eq!(get_language_code("AR"), Some(Code::ar));
    assert_eq!(get_language_code("Sw"), Some(Code::sw));
    assert_eq!(get_language_code("xxx"), None);
    assert_eq!(get_language_code("e"), None);
    assert_eq!(get_language_code("eng"), None);
}

#[test]
fn test_get_name_in_english() {
    assert_eq!(Code::en.get_name_in_english(), "English");
    assert_eq!(Code::zh.get_name_in_english(), "Chinese");
    assert_eq!(Code::sw.get_name_in_english(), "Swahili");
}

#[test]
fn test_get_name_in_native() {
    assert_eq!(Code::en.get_name_in_native(), "English");
    assert_eq!(Code::ar.get_name_in_native(), "العربية");
    assert_eq!(Code::sw.get_name_in_native(), "Kiswahili");
}

#[test]
fn test_get_text_direction() {
    assert_eq!(Code::en.get_text_direction(), Direction::LeftToRight);
    assert_eq!(Code::ar.get_text_direction(), Direction::RightToLeft);
    assert_eq!(Code::he.get_text_direction(), Direction::RightToLeft);
    assert_eq!(Code::sw.get_text_direction(), Direction::LeftToRight);
}

#[test]
fn spoken_test_code_from_name() {
    assert_eq!(Code::try_from("English").unwrap(), Code::en);
    assert_eq!(Code::try_from("en").unwrap(), Code::en);
    assert_eq!(Code::try_from("En").unwrap(), Code::en);
    assert_eq!(Code::try_from("eN").unwrap(), Code::en);
    assert_eq!(Code::try_from("EN").unwrap(), Code::en);
    assert_eq!(Code::try_from("Arabic").unwrap(), Code::ar);
    assert_eq!(Code::try_from("ar").unwrap(), Code::ar);
    assert_eq!(Code::try_from("Swahili").unwrap(), Code::sw);
    assert_eq!(Code::try_from("sw").unwrap(), Code::sw);
    assert!(Code::try_from("Vogon").is_err());
    assert!(Code::try_from("vo").is_err());
}

#[test]
fn spoken_test_language_from_code() {
    assert_eq!(
        Language::from(Code::en),
        Language {
            code: Code::en,
            name: "English".to_string(),
            native_name: "English".to_string(),
            direction: Direction::LeftToRight,
        }
    );
}

#[test]
fn spoken_test_language_from_name() {
    assert_eq!(
        Language::try_from("English").unwrap(),
        Language {
            code: Code::en,
            name: "English".to_string(),
            native_name: "English".to_string(),
            direction: Direction::LeftToRight,
        }
    );
    assert_eq!(
        Language::try_from("en").unwrap(),
        Language {
            code: Code::en,
            name: "English".to_string(),
            native_name: "English".to_string(),
            direction: Direction::LeftToRight,
        }
    );

    assert!(Language::try_from("Vogon").is_err());
}


#[test]
fn every_code_and_name_parses_back() {
    for c in Code::all() {
        assert_eq!(Code::try_from(c.as_str()).ok(), Some(c));
        assert_eq!(Code::try_from(c.as_str().to_uppercase().as_str()).ok(), Some(c));
        assert_eq!(Code::try_from(c.get_name_in_english()).ok(), Some(c));
    }
}

#[test]
fn ascii_text_that_is_no_code_or_name_is_refused() {
    assert!(Code::try_from("zz").is_err());
    assert!(Code::try_from("english").is_err());
    assert!(Code::try_from("En").is_ok());
}
