use vipune::config::env_parser::{parse_env_path, parse_env_string};
use vipune::config::validation::ConfigValidator;
use vipune::config::{Config, ConfigFile};
use vipune::errors::Error;

fn validator(similarity_threshold: f64, recency_weight: f64) -> ConfigValidator {
    ConfigValidator {
        database_path: "/test".to_string(),
        embedding_model: "test/model".to_string(),
        similarity_threshold: similarity_threshold.to_bits(),
        recency_weight: recency_weight.to_bits(),
    }
}

#[test]
fn test_parse_env_string_empty() {
    let result = parse_env_string("TEST_VAR", "");
    assert!(matches!(result, Err(Error::Config(_))));
}

#[test]
fn test_parse_env_string_whitespace() {
    let result = parse_env_string("TEST_VAR", "   ");
    assert!(matches!(result, Err(Error::Config(_))));
}

#[test]
fn test_parse_env_string_valid() {
    let result = parse_env_string("TEST_VAR", "valid");
    assert_eq!(result.unwrap(), "valid");
}

#[test]
fn validation_test_invalid_similarity_threshold() {
    let validator = validator(1.5, 0.3);
    assert!(matches!(validator.validate(), Err(Error::Config(_))));
}

#[test]
fn validation_test_similarity_threshold_range_validation() {
    let validator = validator(1.5, 0.3);
    assert!(matches!(validator.validate(), Err(Error::Config(_))));
}

#[test]
fn validation_test_valid_similarity_threshold_bounds() {
    let mut validator = validator(0.0, 0.3);
    assert!(validator.validate().is_ok());

    validator.similarity_threshold = 1.0f64.to_bits();
    assert!(validator.validate().is_ok());
}

#[test]
fn test_similarity_threshold_nan_rejected() {
    let validator = validator(f64::NAN, 0.3);
    assert!(matches!(validator.validate(), Err(Error::Config(_))));
}

#[test]
fn test_similarity_threshold_infinity_rejected() {
    let validator = validator(f64::INFINITY, 0.3);
    assert!(matches!(validator.validate(), Err(Error::Config(_))));
}

#[test]
fn test_recency_weight_range_validation() {
    let validator = validator(0.85, 1.5);
    assert!(matches!(validator.validate(), Err(Error::Config(_))));
}

#[test]
fn test_valid_recency_weight_bounds() {
    let mut validator = validator(0.85, 0.0);
    assert!(validator.validate().is_ok());

    validator.recency_weight = 1.0f64.to_bits();
    assert!(validator.validate().is_ok());

    validator.recency_weight = 0.3f64.to_bits();
    assert!(validator.validate().is_ok());
}

#[test]
fn test_recency_weight_nan_rejected() {
    let validator = validator(0.85, f64::NAN);
    assert!(matches!(validator.validate(), Err(Error::Config(_))));
}

#[test]
fn test_recency_weight_infinity_rejected() {
    let validator = validator(0.85, f64::INFINITY);
    assert!(matches!(validator.validate(), Err(Error::Config(_))));
}

#[test]
fn config_faults_are_reported_in_order() {
    let text = |v: &ConfigValidator| match v.validate() {
        Err(Error::Config(msg)) => msg,
        other => panic!("unexpected: {:?}", other),
    };
    let mut v = validator(f64::NAN, f64::NEG_INFINITY);
    v.embedding_model = " \t".to_string();
    v.database_path = String::new();
    assert_eq!(text(&v), "Invalid similarity threshold: NaN and infinity are not allowed");
    v.similarity_threshold = (-0.5f64).to_bits();
    assert_eq!(text(&v), "Invalid similarity threshold (must be between 0.0 and 1.0)");
    v.similarity_threshold = 0.85f64.to_bits();
    assert_eq!(text(&v), "Invalid recency weight: NaN and infinity are not allowed");
    v.recency_weight = 1.0000001f64.to_bits();
    assert_eq!(text(&v), "Invalid recency weight (must be between 0.0 and 1.0)");
    v.recency_weight = (-0.0f64).to_bits();
    assert_eq!(text(&v), "Embedding model cannot be empty");
    v.embedding_model = "m".to_string();
    assert_eq!(text(&v), "Database path cannot be empty");
    v.database_path = " ".to_string();
    assert!(v.validate().is_ok());
}

#[test]
fn empty_variables_are_named_in_the_error() {
    match parse_env_string("VIPUNE_EMBEDDING_MODEL", "\n\t ") {
        Err(Error::Config(msg)) => assert_eq!(msg, "VIPUNE_EMBEDDING_MODEL cannot be empty"),
        other => panic!("unexpected: {:?}", other),
    }
    match parse_env_path("VIPUNE_DATABASE_PATH", "") {
        Err(Error::Config(msg)) => assert_eq!(msg, "VIPUNE_DATABASE_PATH cannot be empty"),
        other => panic!("unexpected: {:?}", other),
    }
    assert_eq!(parse_env_string("X", "  padded  ").unwrap(), "  padded  ");
    assert_eq!(parse_env_path("X", "~/data/memories.db").unwrap(), "~/data/memories.db");
}

#[test]
fn defaults_are_the_documented_values() {
    let config = Config::with_paths("/home/u/.vipune/memories.db", "/home/u/.vipune/models");
    assert_eq!(config.database_path, "/home/u/.vipune/memories.db");
    assert_eq!(config.model_cache, "/home/u/.vipune/models");
    assert_eq!(config.embedding_model, "BAAI/bge-small-en-v1.5");
    assert_eq!(f64::from_bits(config.similarity_threshold), 0.85);
    assert_eq!(f64::from_bits(config.recency_weight), 0.3);
    assert!(config.validate().is_ok());
}

#[test]
fn a_file_overrides_what_it_gives() {
    let mut config = Config::with_paths("/default/db", "/default/cache");
    config.merge_from_file(ConfigFile {
        database_path: "/custom/path/to/db.sqlite".to_string(),
        embedding_model: "custom/model".to_string(),
        model_cache: String::new(),
        similarity_threshold: 0.9f64.to_bits(),
        recency_weight: 0.0f64.to_bits(),
    });
    assert_eq!(config.database_path, "/custom/path/to/db.sqlite");
    assert_eq!(config.embedding_model, "custom/model");
    assert_eq!(config.model_cache, "/default/cache");
    assert_eq!(f64::from_bits(config.similarity_threshold), 0.9);
    assert_eq!(f64::from_bits(config.recency_weight), 0.0);

    config.merge_from_file(ConfigFile {
        database_path: String::new(),
        embedding_model: String::new(),
        model_cache: "/other/cache".to_string(),
        similarity_threshold: 2.0f64.to_bits(),
        recency_weight: 0.3f64.to_bits(),
    });
    assert_eq!(config.database_path, "/custom/path/to/db.sqlite");
    assert_eq!(config.embedding_model, "custom/model");
    assert_eq!(config.model_cache, "/other/cache");
    match config.validate() {
        Err(Error::Config(msg)) => {
            assert_eq!(msg, "Invalid similarity threshold (must be between 0.0 and 1.0)")
        }
        other => panic!("unexpected: {:?}", other),
    }
}
