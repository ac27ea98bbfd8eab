use bin2src::language::Language;

#[test]
fn every_synonym_selects_its_format() {
    assert_eq!(Language::from_str("bin"), Ok(Language::Binary));
    assert_eq!(Language::from_str("binary"), Ok(Language::Binary));
    assert_eq!(Language::from_str("hex"), Ok(Language::Hex));
    assert_eq!(Language::from_str("hexadecimal"), Ok(Language::Hex));
    assert_eq!(Language::from_str("c"), Ok(Language::C));
    assert_eq!(Language::from_str("c++"), Ok(Language::C));
    assert_eq!(Language::from_str("cpp"), Ok(Language::C));
    assert_eq!(Language::from_str("cdef"), Ok(Language::CDef));
    assert_eq!(Language::from_str("cdefine"), Ok(Language::CDef));
    assert_eq!(Language::from_str("rs"), Ok(Language::Rust));
    assert_eq!(Language::from_str("rust"), Ok(Language::Rust));
    assert_eq!(Language::from_str("c#"), Ok(Language::CSharp));
    assert_eq!(Language::from_str("csharp"), Ok(Language::CSharp));
    assert_eq!(Language::from_str("py"), Ok(Language::Python));
    assert_eq!(Language::from_str("python"), Ok(Language::Python));
    assert_eq!(Language::from_str("python3"), Ok(Language::Python));
    assert_eq!(Language::from_str("js"), Ok(Language::Javascript));
    assert_eq!(Language::from_str("javascript"), Ok(Language::Javascript));
    assert_eq!(Language::from_str("go"), Ok(Language::Go));
    assert_eq!(Language::from_str("golang"), Ok(Language::Go));
    assert_eq!(Language::from_str("java"), Ok(Language::Java));
}

#[test]
fn matching_ignores_ascii_case() {
    assert_eq!(Language::from_str("BIN"), Ok(Language::Binary));
    assert_eq!(Language::from_str("Hex"), Ok(Language::Hex));
    assert_eq!(Language::from_str("C++"), Ok(Language::C));
    assert_eq!(Language::from_str("CDefine"), Ok(Language::CDef));
    assert_eq!(Language::from_str("RUST"), Ok(Language::Rust));
    assert_eq!(Language::from_str("C#"), Ok(Language::CSharp));
    assert_eq!(Language::from_str("Python"), Ok(Language::Python));
    assert_eq!(Language::from_str("CPP"), Ok(Language::C));
    assert_eq!(Language::from_str("Python3"), Ok(Language::Python));
    assert_eq!(Language::from_str("JavaScript"), Ok(Language::Javascript));
    assert_eq!(Language::from_str("GoLang"), Ok(Language::Go));
    assert_eq!(Language::from_str("JAVA"), Ok(Language::Java));
}

#[test]
fn unknown_token_reports_the_token() {
    assert_eq!(
        Language::from_str("cobol"),
        Err("Invalid language: cobol".to_string())
    );
    assert_eq!(Language::from_str(""), Err("Invalid language: ".to_string()));
    assert_eq!(
        Language::from_str("hexa"),
        Err("Invalid language: hexa".to_string())
    );
}
