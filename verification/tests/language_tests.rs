use gic_core::language::{detect_language, language_for, language_for_extension};

#[test]
fn languages_by_extension() {
    assert_eq!(detect_language("src/main.rs"), "Rust");
    assert_eq!(detect_language("main.RS"), "Rust");
    assert_eq!(detect_language("compose.yml"), "YAML");
    assert_eq!(detect_language("infra/main.tf"), "Terraform");
    assert_eq!(detect_language("x.unknown"), "Plain Text");
    assert_eq!(language_for_extension("hpp"), "C++");
    assert_eq!(language_for_extension("zsh"), "Shell");
    assert_eq!(language_for_extension("Rs"), "Plain Text");
}

#[test]
fn languages_by_file_name() {
    assert_eq!(detect_language("Dockerfile"), "Dockerfile");
    assert_eq!(detect_language("/srv/app/dockerFILE"), "Dockerfile");
    assert_eq!(detect_language("notes"), "Plain Text");
    assert_eq!(detect_language(""), "Plain Text");
    assert_eq!(language_for(None, Some("DOCKERFILE")), "Dockerfile");
    assert_eq!(language_for(Some("Json"), Some("x.Json")), "JSON");
    assert_eq!(language_for(None, None), "Plain Text");
}
