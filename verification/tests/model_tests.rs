use std::str::FromStr;
use turbocommit::model::Model;

#[test]
fn test_gpt5_models_context_sizes() {
    assert_eq!(Model("gpt-5-nano".to_string()).context_size(), 128000);
    assert_eq!(Model("gpt-5-mini".to_string()).context_size(), 128000);
    assert_eq!(Model("gpt-5".to_string()).context_size(), 200000);
    assert_eq!(Model("gpt-5-codex".to_string()).context_size(), 128000);
}

#[test]
fn test_gpt5_variants_use_default() {
    // Any gpt-5 variant not explicitly listed should get default context size
    assert_eq!(Model("gpt-5-experimental".to_string()).context_size(), 200000);
    assert_eq!(Model("gpt-5-turbo".to_string()).context_size(), 200000);
}

#[test]
fn test_only_gpt5_models_allowed() {
    // Only gpt-5.x models should be accepted
    assert!(Model::from_str("gpt-5").is_ok());
    assert!(Model::from_str("gpt-5-nano").is_ok());
    assert!(Model::from_str("gpt-5-mini").is_ok());

    // Old models should be rejected
    assert!(Model::from_str("gpt-4").is_err());
    assert!(Model::from_str("gpt-4o").is_err());
    assert!(Model::from_str("o1").is_err());
    assert!(Model::from_str("o3-mini").is_err());
    assert!(Model::from_str("unknown-model").is_err());
}

#[test]
fn test_model_validation_error_message() {
    let err = Model::from_str("gpt-4").unwrap_err();
    assert!(err.contains("gpt-4"));
    assert!(err.contains("GPT-5"));
}

#[test]
fn unknown_model_context_is_unbounded() {
    assert_eq!(Model("other".to_string()).context_size(), usize::MAX);
}

#[test]
fn parse_accepts_gpt5_names_and_pins_the_error_text() {
    let m = Model::parse("gpt-5-codex").unwrap();
    assert_eq!(m.0, "gpt-5-codex");
    let err = Model::parse("gpt-4").unwrap_err();
    assert_eq!(
        err,
        "Invalid model 'gpt-4'. Only GPT-5.x models are supported (e.g., gpt-5, gpt-5-nano, gpt-5-mini, gpt-5-codex)"
    );
}
