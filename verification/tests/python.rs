use workshop::python::{
    expand_candidates, find_python_executable, launcher_python, find_version_text, minimum_version, parse_version,
    python_suits, split_words, Error,
};

#[test]
fn python_words_split_on_whitespace() {
    assert_eq!(
        split_words("  Python 3.11.4\n"),
        vec!["Python".to_string(), "3.11.4".to_string()]
    );
    assert!(split_words("   ").is_empty());
}

#[test]
fn python_version_text_from_output() {
    assert_eq!(find_version_text("Python 3.11.4"), Some("3.11.4".to_string()));
    assert_eq!(find_version_text("Python3.12.1"), Some("3.12.1".to_string()));
    assert_eq!(find_version_text("version 2.7.18"), Some("2.7.18".to_string()));
    assert_eq!(find_version_text("no version here"), None);
}

#[test]
fn python_parse_version_numbers() {
    let v = parse_version("Python 3.11.4").unwrap();
    assert_eq!((v.major(), v.minor(), v.patch()), (3, 11, 4));
    assert!(parse_version("Python 3.11").is_none());
    assert!(parse_version("nothing").is_none());
}

#[test]
fn python_minimum_version_must_parse() {
    let m = minimum_version("3.10.0").unwrap();
    assert_eq!((m.major(), m.minor(), m.patch()), (3, 10, 0));
    assert!(matches!(minimum_version("3.10"), Err(Error::NoPythonExecutable)));
}

#[test]
fn python_suits_compares_versions() {
    let m = minimum_version("3.10.0").unwrap();
    assert!(python_suits(Some("Python 3.11.4"), &m));
    assert!(python_suits(Some("Python 3.10.0"), &m));
    assert!(!python_suits(Some("Python 3.9.18"), &m));
    assert!(!python_suits(Some("Python 2.7.18"), &m));
    assert!(!python_suits(None, &m));
}

#[test]
fn python_first_suitable_candidate() {
    let candidates = vec![
        ("python3".to_string(), Some("Python 3.9.1".to_string())),
        ("python".to_string(), None),
        ("py".to_string(), Some("Python 3.12.0".to_string())),
        ("/usr/bin/python3".to_string(), Some("Python 3.13.0".to_string())),
    ];
    assert_eq!(find_python_executable("3.10.0", &candidates), Ok("py".to_string()));
    assert_eq!(
        find_python_executable("3.14.0", &candidates),
        Err(Error::NoPythonExecutable)
    );
    assert_eq!(
        find_python_executable("three", &candidates),
        Err(Error::NoPythonExecutable)
    );
}

#[test]
fn python_candidates_expand_home() {
    let expanded = expand_candidates(&vec![
        "python3".to_string(),
        "~/.pyenv/shims/python3".to_string(),
    ]);
    assert_eq!(expanded[0], "python3");
    assert!(expanded[1].ends_with("/.pyenv/shims/python3"));
    let kept = expand_candidates(&vec!["~user/bin/python3".to_string()]);
    assert_eq!(kept[0], "~user/bin/python3");
}

#[test]
fn python_launcher_listing() {
    let listing = "Installed Pythons found by py Launcher for Windows\r\n -3.11-64 *\r\n -3.10-64\r\n";
    assert_eq!(launcher_python(listing), Some("py -3.11-64".to_string()));
    assert_eq!(launcher_python(" -V:3.12 *\n"), None);
    assert_eq!(launcher_python(""), None);
    assert_eq!(launcher_python("--3.9 extra\n"), Some("py -3.9".to_string()));
}
