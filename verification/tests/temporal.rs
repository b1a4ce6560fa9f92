use vipune::temporal::{
    uses_recency, validate_recency_weight, DecayConfig, DecayConfigError, DecayFunction,
    DEFAULT_LAMBDA, EXPONENTIAL_LAMBDA_MAX, EXPONENTIAL_LAMBDA_MIN, LINEAR_LAMBDA_MAX,
    LINEAR_LAMBDA_MIN,
};

fn config(function: DecayFunction, lambda: f64, offset_days: f64) -> DecayConfig {
    DecayConfig {
        function,
        lambda: lambda.to_bits(),
        offset_days: offset_days.to_bits(),
    }
}

#[test]
fn test_validate_recency_weight_valid() {
    assert!(validate_recency_weight(0.0f64.to_bits()).is_ok());
    assert!(validate_recency_weight(0.5f64.to_bits()).is_ok());
    assert!(validate_recency_weight(1.0f64.to_bits()).is_ok());
}

#[test]
fn test_validate_recency_weight_negative() {
    let result = validate_recency_weight((-0.1f64).to_bits());
    assert!(result.is_err());
    assert!(result.unwrap_err().message().contains("must be between 0.0 and 1.0"));
}

#[test]
fn test_validate_recency_weight_exceeds_one() {
    let result = validate_recency_weight(1.1f64.to_bits());
    assert!(result.is_err());
    assert!(result.unwrap_err().message().contains("must be between 0.0 and 1.0"));
}

#[test]
fn test_decay_config_default() {
    let config = DecayConfig::default();
    assert!(matches!(config.function, DecayFunction::Exponential));
    assert_eq!(f64::from_bits(config.lambda), 1e-6);
    assert_eq!(f64::from_bits(config.offset_days), 0.0);

    let linear_config = DecayConfig {
        function: DecayFunction::Linear,
        lambda: (1.0f64 / 86400.0).to_bits(),
        offset_days: 0.0f64.to_bits(),
    };
    assert!(matches!(linear_config.function, DecayFunction::Linear));
}

#[test]
fn test_decay_config_new_valid() {
    let result = DecayConfig::new();
    assert!(result.is_ok());
    let config = result.unwrap();
    assert_eq!(f64::from_bits(config.lambda), 1e-6);
}

#[test]
fn test_decay_config_validate_negative_lambda() {
    let config = config(DecayFunction::Exponential, -1e-6, 0.0);
    let result = config.validate();
    assert!(result.is_err());
    assert!(result.unwrap_err().message().contains("must be positive"));
}

#[test]
fn test_decay_config_validate_zero_lambda() {
    let config = config(DecayFunction::Exponential, 0.0, 0.0);
    let result = config.validate();
    assert!(result.is_err());
    assert!(result.unwrap_err().message().contains("must be positive"));
}

#[test]
fn test_decay_config_validate_large_lambda() {
    let config = config(DecayFunction::Exponential, 1e-2, 0.0);
    let result = config.validate();
    assert!(result.is_err());
    assert!(result.unwrap_err().message().contains("too large"));
}

#[test]
fn test_decay_config_validate_negative_offset() {
    let config = config(DecayFunction::Exponential, 1e-6, -7.0);
    let result = config.validate();
    assert!(result.is_err());
    assert!(result.unwrap_err().message().contains("must be >= 0"));
}

#[test]
fn test_decay_config_validate_valid_offset() {
    let config = config(DecayFunction::Exponential, 1e-6, 7.0);
    let result = config.validate();
    assert!(result.is_ok());
}

#[test]
fn test_decay_function_all() {
    let functions: Vec<_> = DecayFunction::all().into_iter().collect();
    assert_eq!(functions.len(), 2);
    assert!(functions.contains(&DecayFunction::Exponential));
    assert!(functions.contains(&DecayFunction::Linear));
}

#[test]
fn test_linear_decay_validation_too_small_lambda() {
    let config = config(DecayFunction::Linear, 1e-7, 0.0);
    let result = config.validate();
    assert!(result.is_err());
    assert!(result.unwrap_err().message().contains("too small to be useful"));
}

#[test]
fn test_linear_decay_validation_too_large_lambda() {
    let config = config(DecayFunction::Linear, 200.0, 0.0);
    let result = config.validate();
    assert!(result.is_err());
    assert!(result.unwrap_err().message().contains("too large"));
}

#[test]
fn test_linear_decay_validation_valid_min() {
    let config = config(DecayFunction::Linear, 1e-6, 0.0);
    let result = config.validate();
    assert!(result.is_ok(), "Linear lambda 1e-6 should be valid");
}

#[test]
fn test_linear_decay_validation_valid_max() {
    let config = config(DecayFunction::Linear, 100.0, 0.0);
    let result = config.validate();
    assert!(result.is_ok(), "Linear lambda 100.0 should be valid");
}

#[test]
fn rate_limits_are_the_documented_numbers() {
    assert_eq!(f64::from_bits(EXPONENTIAL_LAMBDA_MAX), 1e-3);
    assert_eq!(f64::from_bits(EXPONENTIAL_LAMBDA_MIN), 1e-10);
    assert_eq!(f64::from_bits(LINEAR_LAMBDA_MAX), 100.0);
    assert_eq!(f64::from_bits(LINEAR_LAMBDA_MIN), 1e-6);
    assert_eq!(f64::from_bits(DEFAULT_LAMBDA), 1e-6);
}

#[test]
fn exponential_rate_at_its_edges() {
    let e = DecayFunction::Exponential;
    assert!(config(e, 1e-3, 0.0).validate().is_ok());
    assert!(config(e, 1e-10, 0.0).validate().is_ok());
    assert_eq!(
        config(e, 1.0000000000000002e-3, 0.0).validate(),
        Err(DecayConfigError::LambdaTooLarge(e, 1.0000000000000002e-3f64.to_bits()))
    );
    assert_eq!(
        config(e, 0.9999999999999999e-10, 0.0).validate(),
        Err(DecayConfigError::LambdaTooSmall(e, 0.9999999999999999e-10f64.to_bits()))
    );
    assert_eq!(
        config(e, 1e-11, 0.0).validate().unwrap_err().message(),
        "Exponential decay lambda is too small (min: 1e-10)"
    );
}

#[test]
fn faults_come_in_the_order_of_the_checks() {
    let l = DecayFunction::Linear;
    assert_eq!(
        config(l, -1.0, -1.0).validate(),
        Err(DecayConfigError::NonPositiveLambda((-1.0f64).to_bits()))
    );
    assert_eq!(
        config(l, -0.0, 0.0).validate(),
        Err(DecayConfigError::NonPositiveLambda((-0.0f64).to_bits()))
    );
    assert_eq!(
        config(l, f64::INFINITY, -1.0).validate(),
        Err(DecayConfigError::LambdaTooLarge(l, f64::INFINITY.to_bits()))
    );
    assert_eq!(
        config(l, 1.0, -1e-300).validate(),
        Err(DecayConfigError::NegativeOffset((-1e-300f64).to_bits()))
    );
    assert!(config(l, 1.0, -0.0).validate().is_ok());
    assert!(config(l, 1.0, f64::INFINITY).validate().is_ok());
}

#[test]
fn a_rate_that_is_no_number_is_rejected() {
    for function in DecayFunction::all() {
        let r = config(function, f64::NAN, 0.0).validate();
        assert_eq!(r, Err(DecayConfigError::NonPositiveLambda(f64::NAN.to_bits())));
    }
}

#[test]
fn weight_range_at_its_edges() {
    assert!(validate_recency_weight((-0.0f64).to_bits()).is_ok());
    assert!(validate_recency_weight(f64::MIN_POSITIVE.to_bits()).is_ok());
    assert!(validate_recency_weight(0.9999999999999999f64.to_bits()).is_ok());
    for bad in [1.0000000000000002, -f64::MIN_POSITIVE, f64::NAN, f64::INFINITY, -1.0] {
        let r = validate_recency_weight(bad.to_bits());
        assert_eq!(r.unwrap_err().weight, bad.to_bits());
    }
}

#[test]
fn recency_needs_a_weight_above_zero() {
    assert!(!uses_recency(0.0f64.to_bits()));
    assert!(!uses_recency((-0.0f64).to_bits()));
    assert!(!uses_recency((-0.5f64).to_bits()));
    assert!(!uses_recency(f64::NAN.to_bits()));
    assert!(uses_recency(f64::MIN_POSITIVE.to_bits()));
    assert!(uses_recency(0.3f64.to_bits()));
    assert!(uses_recency(1.0f64.to_bits()));
}
