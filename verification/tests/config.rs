use workshop::config::Config;
use workshop::languages::{programming, spoken};
use workshop::settings::Config as Settings;

#[test]
fn config_defaults() {
    let c = Config::default();
    assert_eq!(c.python_minimum_version(), "3.10.0");
    assert_eq!(c.python_executable(), None);
    assert_eq!(c.docker_compose_minimum_version(), "2.0.0");
    assert_eq!(c.docker_compose_executable(), None);
    assert_eq!(c.spoken_language(), None);
    assert_eq!(c.programming_language(), None);
}

#[test]
fn config_setters() {
    let mut c = Config::default();
    c.set_python_executable("/usr/bin/python3");
    c.set_docker_compose_executable("docker compose");
    c.set_spoken_language(Some(spoken::Code::fr));
    c.set_programming_language(Some(programming::Code::py));
    assert_eq!(c.python_executable(), Some("/usr/bin/python3".to_string()));
    assert_eq!(c.docker_compose_executable(), Some("docker compose".to_string()));
    assert_eq!(c.spoken_language(), Some(spoken::Code::fr));
    assert_eq!(c.programming_language(), Some(programming::Code::py));
    assert_eq!(c.python_minimum_version(), "3.10.0");
    c.set_spoken_language(None);
    assert_eq!(c.spoken_language(), None);
}

#[test]
fn config_from_parts() {
    let c = Config::from_parts(
        "3.12.0".to_string(),
        Some("python3".to_string()),
        "2.1.0".to_string(),
        None,
        Some(spoken::Code::de),
        None,
    );
    assert_eq!(c.python_minimum_version(), "3.12.0");
    assert_eq!(c.python_executable(), Some("python3".to_string()));
    assert_eq!(c.docker_compose_minimum_version(), "2.1.0");
    assert_eq!(c.spoken_language(), Some(spoken::Code::de));
}

#[test]
fn settings_first_start_languages() {
    let s = Settings::new("/cfg".to_string(), "/data".to_string());
    assert_eq!(s.config_dir(), "/cfg");
    assert_eq!(s.data_dir(), "/data");
    assert_eq!(s.spoken_language(), spoken::Code::en);
    assert_eq!(s.programming_language(), programming::Code::rs);
    let t = Settings::from_parts(
        "/c".to_string(),
        "/d".to_string(),
        spoken::Code::es,
        programming::Code::go,
    );
    assert_eq!(t.spoken_language(), spoken::Code::es);
    assert_eq!(t.programming_language(), programming::Code::go);
}
