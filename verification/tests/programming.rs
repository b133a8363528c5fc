use workshop::languages::programming::{
    get_language_code, get_language_code_from_name, Code, Language,
};

#[test]
fn programming_test_get_language_code_from_name() {
    assert_eq!(get_language_code_from_name("Python"), Some(Code::py));
    assert_eq!(get_language_code_from_name("JavaScript"), Some(Code::js));
    assert_eq!(get_language_code_from_name("Java"), Some(Code::ja));
    assert_eq!(get_language_code_from_name(".Net"), Some(Code::cs));
    assert_eq!(get_language_code_from_name("C++"), Some(Code::cp));
    assert_eq!(get_language_code_from_name("Go"), Some(Code::go));
    assert_eq!(get_language_code_from_name("Ruby"), Some(Code::rb));
    assert_eq!(get_language_code_from_name("PHP"), Some(Code::ph));
    assert_eq!(get_language_code_from_name("TypeScript"), Some(Code::ts));
    assert_eq!(get_language_code_from_name("Swift"), Some(Code::sw));
    assert_eq!(get_language_code_from_name("Kotlin"), Some(Code::kt));
    assert_eq!(get_language_code_from_name("Rust"), Some(Code::rs));
    assert_eq!(get_language_code_from_name("Scala"), Some(Code::sc));
    assert_eq!(get_language_code_from_name("Lua"), Some(Code::lu));
    assert_eq!(get_language_code_from_name("Perl"), Some(Code::pe));
    assert_eq!(get_language_code_from_name("Haskell"), Some(Code::hs));
    assert_eq!(get_language_code_from_name("Erlang"), Some(Code::er));
    assert_eq!(get_language_code_from_name("Clojure"), Some(Code::cl));
    assert_eq!(get_language_code_from_name("Elixir"), Some(Code::el));
    assert_eq!(get_language_code_from_name("F#"), Some(Code::fs));

    // Test invalid names
    assert!(get_language_code_from_name("Brainfuck").is_none());
}

#[test]
fn programming_test_get_language_code() {
    assert_eq!(get_language_code("py"), Some(Code::py));
    assert_eq!(get_language_code("js"), Some(Code::js));
    assert_eq!(get_language_code("ja"), Some(Code::ja));
    assert_eq!(get_language_code("cs"), Some(Code::cs));
    assert_eq!(get_language_code("cp"), Some(Code::cp));
    assert_eq!(get_language_code("go"), Some(Code::go));
    assert_eq!(get_language_code("rb"), Some(Code::rb));
    assert_eq!(get_language_code("ph"), Some(Code::ph));
    assert_eq!(get_language_code("ts"), Some(Code::ts));
    assert_eq!(get_language_code("sw"), Some(Code::sw));
    assert_eq!(get_language_code("kt"), Some(Code::kt));
    assert_eq!(get_language_code("rs"), Some(Code::rs));
    assert_eq!(get_language_code("sc"), Some(Code::sc));
    assert_eq!(get_language_code("lu"), Some(Code::lu));
    assert_eq!(get_language_code("pe"), Some(Code::pe));
    assert_eq!(get_language_code("hs"), Some(Code::hs));
    assert_eq!(get_language_code("er"), Some(Code::er));
    assert_eq!(get_language_code("cl"), Some(Code::cl));
    assert_eq!(get_language_code("el"), Some(Code::el));
    assert_eq!(get_language_code("fs"), Some(Code::fs));

    // Test invalid codes
    assert!(get_language_code("bf").is_none());
}

#[test]
fn test_get_name() {
    assert_eq!(Code::py.get_name(), "Python");
    assert_eq!(Code::js.get_name(), "JavaScript");
    assert_eq!(Code::ja.get_name(), "Java");
    assert_eq!(Code::cs.get_name(), ".Net");
    assert_eq!(Code::cp.get_name(), "C++");
    assert_eq!(Code::go.get_name(), "Go");
    assert_eq!(Code::rb.get_name(), "Ruby");
    assert_eq!(Code::ph.get_name(), "PHP");
    assert_eq!(Code::ts.get_name(), "TypeScript");
    assert_eq!(Code::sw.get_name(), "Swift");
    assert_eq!(Code::kt.get_name(), "Kotlin");
    assert_eq!(Code::rs.get_name(), "Rust");
    assert_eq!(Code::sc.get_name(), "Scala");
    assert_eq!(Code::lu.get_name(), "Lua");
    assert_eq!(Code::pe.get_name(), "Perl");
    assert_eq!(Code::hs.get_name(), "Haskell");
    assert_eq!(Code::er.get_name(), "Erlang");
    assert_eq!(Code::cl.get_name(), "Clojure");
    assert_eq!(Code::el.get_name(), "Elixir");
    assert_eq!(Code::fs.get_name(), "F#");

    // Test invalid codes
    assert!(get_language_code("bf").is_none());
}

#[test]
fn programming_test_code_from_name() {
    assert_eq!(Code::try_from("Python").unwrap(), Code::py);
    assert_eq!(Code::try_from("JavaScript").unwrap(), Code::js);
    assert_eq!(Code::try_from("Java").unwrap(), Code::ja);
    assert_eq!(Code::try_from(".Net").unwrap(), Code::cs);
    assert_eq!(Code::try_from("C++").unwrap(), Code::cp);
    assert_eq!(Code::try_from("Go").unwrap(), Code::go);
    assert_eq!(Code::try_from("Ruby").unwrap(), Code::rb);
    assert_eq!(Code::try_from("PHP").unwrap(), Code::ph);
    assert_eq!(Code::try_from("TypeScript").unwrap(), Code::ts);
    assert_eq!(Code::try_from("Swift").unwrap(), Code::sw);
    assert_eq!(Code::try_from("Kotlin").unwrap(), Code::kt);
    assert_eq!(Code::try_from("Rust").unwrap(), Code::rs);
    assert_eq!(Code::try_from("Scala").unwrap(), Code::sc);
    assert_eq!(Code::try_from("Lua").unwrap(), Code::lu);
    assert_eq!(Code::try_from("Perl").unwrap(), Code::pe);
    assert_eq!(Code::try_from("Haskell").unwrap(), Code::hs);
    assert_eq!(Code::try_from("Erlang").unwrap(), Code::er);
    assert_eq!(Code::try_from("Clojure").unwrap(), Code::cl);
    assert_eq!(Code::try_from("Elixir").unwrap(), Code::el);
    assert_eq!(Code::try_from("F#").unwrap(), Code::fs);

    // Test invalid names
    assert!(Language::try_from("Brainfuck").is_err());
}

#[test]
fn programming_test_language_from_code() {
    assert_eq!(
        Language::from(Code::py),
        Language {
            code: Code::py,
            extension: "py".to_string(),
            name: "Python".to_string(),
        }
    );
    assert_eq!(
        Language::from(Code::js),
        Language {
            code: Code::js,
            extension: "js".to_string(),
            name: "JavaScript".to_string(),
        }
    );
    assert_eq!(
        Language::from(Code::ja),
        Language {
            code: Code::ja,
            extension: "java".to_string(),
            name: "Java".to_string(),
        }
    );
}

#[test]
fn programming_test_language_from_name() {
    assert_eq!(
        Language::try_from("Python").unwrap(),
        Language {
            code: Code::py,
            extension: "py".to_string(),
            name: "Python".to_string(),
        }
    );
    assert_eq!(
        Language::try_from("JavaScript").unwrap(),
        Language {
            code: Code::js,
            extension: "js".to_string(),
            name: "JavaScript".to_string(),
        }
    );
    assert_eq!(
        Language::try_from("Java").unwrap(),
        Language {
            code: Code::ja,
            extension: "java".to_string(),
            name: "Java".to_string(),
        }
    );
}

#[test]
fn every_programming_code_and_name_parses_back() {
    for c in Code::all() {
        assert_eq!(Code::try_from(c.as_str()).ok(), Some(c));
        assert_eq!(Code::try_from(c.as_str().to_uppercase().as_str()).ok(), Some(c));
        assert_eq!(Code::try_from(c.get_name()).ok(), Some(c));
    }
}
