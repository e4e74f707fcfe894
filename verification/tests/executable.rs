use famp::executable::{
    file_name, flatten_error_chain, is_famp_executable_name_for, posix_shell_literal, resolve_with,
    validate_candidate, CandidateSource, FampExecutable, FampExecutableError, FileFacts, LocatorFacts,
    NameConvention, PathText,
};

fn text(p: &str) -> PathText {
    PathText { text: p.to_string(), utf8: true }
}

fn locator(cwd: &str) -> LocatorFacts {
    LocatorFacts { explicit: None, current_exe: None, path_lookup: None, current_dir: Ok(text(cwd)) }
}

fn resolved(facts: &LocatorFacts) -> String {
    resolve_with(facts, NameConvention::Unix).unwrap().0.text
}

#[test]
fn precedence_and_candidate_selection_are_deterministic() {
    let dir = "/tmp/famp-sel";
    let explicit = format!("{dir}/explicit famp");
    let current = format!("{dir}/famp");
    let path = format!("{dir}/path-famp");
    let mut fake = locator(dir);
    fake.explicit = Some(text(&explicit));
    fake.current_exe = Some(text(&current));
    fake.path_lookup = Some(text(&path));
    assert_eq!(resolved(&fake), explicit);

    fake.explicit = None;
    assert_eq!(resolved(&fake), current);
    fake.current_exe = Some(text(&format!("{dir}/test-harness")));
    assert_eq!(resolved(&fake), path);
    fake.path_lookup = None;
    assert!(matches!(resolve_with(&fake, NameConvention::Unix), Err(FampExecutableError::NotFound)));
}

#[test]
fn invalid_explicit_never_falls_back() {
    let mut fake = locator("/tmp/famp-inv");
    fake.path_lookup = Some(text("/tmp/famp-inv/famp"));
    fake.explicit = Some(text("  \t"));
    assert!(matches!(resolve_with(&fake, NameConvention::Unix), Err(FampExecutableError::EmptyExplicit)));
    fake.explicit = Some(text("missing"));
    let (p, source) = resolve_with(&fake, NameConvention::Unix).unwrap();
    assert_eq!(p.text, "/tmp/famp-inv/missing");
    assert!(matches!(
        validate_candidate(p, source, Err("No such file or directory".to_string())),
        Err(FampExecutableError::Metadata { .. })
    ));
}

#[test]
fn relative_space_and_cargo_style_paths_become_absolute() {
    let mut fake = locator("/tmp/famp-rel");
    fake.explicit = Some(text(".cargo/bin/famp with space"));
    assert_eq!(resolved(&fake), "/tmp/famp-rel/.cargo/bin/famp with space");
}

#[test]
fn current_dir_failure_on_relative_explicit_path_is_fatal() {
    let mut fake = locator("/tmp/famp-cwd");
    fake.path_lookup = Some(text("/tmp/famp-cwd/famp"));
    fake.current_dir = Err("No such file or directory".to_string());
    fake.explicit = Some(text("relative/famp"));
    assert!(matches!(resolve_with(&fake, NameConvention::Unix), Err(FampExecutableError::Absolute { .. })));
    fake.explicit = Some(text("/tmp/famp-cwd/elsewhere/famp"));
    assert_eq!(resolved(&fake), "/tmp/famp-cwd/elsewhere/famp");
}

#[test]
fn invalid_file_types_fail_validation() {
    let p = || text("/tmp/famp-v/plain");
    assert!(matches!(
        validate_candidate(p(), CandidateSource::Explicit, Ok(FileFacts { is_file: false, mode: 0o755 })),
        Err(FampExecutableError::NotAFile { .. })
    ));
    assert!(matches!(
        validate_candidate(p(), CandidateSource::Explicit, Ok(FileFacts { is_file: true, mode: 0o644 })),
        Err(FampExecutableError::NotExecutable { .. })
    ));
    let ok = validate_candidate(p(), CandidateSource::Explicit, Ok(FileFacts { is_file: true, mode: 0o744 })).unwrap();
    assert_eq!(ok.path(), "/tmp/famp-v/plain");
}

#[test]
fn non_utf8_path_fails() {
    let lossy = PathText { text: "/tmp/f\u{FFFD}".to_string(), utf8: false };
    assert!(matches!(
        FampExecutable::validate(lossy, Err("never consulted".to_string())),
        Err(FampExecutableError::NonUtf8 { .. })
    ));
}

#[test]
fn posix_literal_quotes_spaces_apostrophes_and_shell_metacharacters() {
    assert_eq!(posix_shell_literal("/tmp/a b'c;$x"), "'/tmp/a b'\\''c;$x'");
}

#[test]
fn only_exact_platform_file_names_identify_the_famp_executable() {
    let (unix, windows) = (NameConvention::Unix, NameConvention::Windows);
    for (name, convention) in [("famp", unix), ("famp.exe", windows), ("FAMP.EXE", windows), ("Famp.Exe", windows)] {
        assert!(is_famp_executable_name_for(name, convention), "{name} must be accepted under {convention:?}");
    }
    let rejected = [
        "famp.bak",
        "famp.1",
        "famp.exe.bak",
        "famp.old",
        "famp-old",
        "fampx",
        "cargo-famp",
        "famp ",
        " famp",
        "",
        "executable-3f2a1c0d9e8b7a65",
    ];
    for name in rejected {
        for convention in [unix, windows] {
            assert!(!is_famp_executable_name_for(name, convention), "{name:?} must be rejected under {convention:?}");
        }
    }
    assert!(!is_famp_executable_name_for("famp.exe", unix));
    assert!(!is_famp_executable_name_for("famp", windows));
}

#[test]
fn current_exe_with_extension_is_not_a_candidate() {
    let mut fake = locator("/tmp/famp-ext");
    fake.current_exe = Some(text("/tmp/famp-ext/famp.bak"));
    fake.path_lookup = Some(text("/tmp/famp-ext/bin/famp"));
    assert_eq!(resolved(&fake), "/tmp/famp-ext/bin/famp");
    fake.path_lookup = None;
    assert!(matches!(resolve_with(&fake, NameConvention::Unix), Err(FampExecutableError::NotFound)));
    fake.current_exe = Some(text("/tmp/famp-ext/bin/famp"));
    assert_eq!(resolved(&fake), "/tmp/famp-ext/bin/famp");
}

#[test]
fn leading_and_trailing_space_file_names_are_preserved() {
    for name in [" famp", "famp "] {
        let candidate = format!("/tmp/famp-sp/{name}");
        let mut fake = locator("/tmp/famp-sp");
        fake.explicit = Some(text(&candidate));
        let (p, source) = resolve_with(&fake, NameConvention::Unix).unwrap();
        let resolved =
            validate_candidate(p, source, Ok(FileFacts { is_file: true, mode: 0o755 })).unwrap();
        assert_eq!(resolved.path(), candidate);
        assert_eq!(resolved.utf8(), candidate);
        assert!(resolved.utf8().ends_with(name));
    }
}

#[test]
fn cargo_shaped_path_is_preserved_when_actually_selected() {
    let cargo = "/tmp/famp-cargo/.cargo/bin/famp";
    let mut fake = locator("/tmp/famp-cargo");
    fake.explicit = Some(text(cargo));
    assert_eq!(resolved(&fake), cargo);
    fake.explicit = None;
    fake.current_exe = Some(text(cargo));
    assert_eq!(resolved(&fake), cargo);
    fake.current_exe = None;
    fake.path_lookup = Some(text(cargo));
    assert_eq!(resolved(&fake), cargo);
    fake.path_lookup = None;
    assert!(matches!(resolve_with(&fake, NameConvention::Unix), Err(FampExecutableError::NotFound)));
}

#[test]
fn file_name_is_the_last_component() {
    assert_eq!(file_name("/usr/local/bin/famp"), "famp");
    assert_eq!(file_name("famp"), "famp");
}

#[test]
fn error_chain_is_joined_with_colons() {
    let chain = vec!["outer".to_string(), "middle".to_string(), "root cause".to_string()];
    assert_eq!(flatten_error_chain(&chain), "outer: middle: root cause");
    assert_eq!(flatten_error_chain(&[]), "");
}
