use chizu::config::{
    default_max_tokens, default_parallel_workers, default_query_limit, default_retry_attempts, default_timeout,
    validate_config, validation_errors, ConfigValues, FloatChecks,
};

const NAMES: [&str; 7] = ["task_route", "keyword", "name_match", "vector", "kind_preference", "exported", "path_match"];
const DEFAULT_WEIGHTS: [f64; 7] = [0.30, 0.20, 0.15, 0.20, 0.05, 0.05, 0.05];

/// What the float settings amount to, as the configuration loader decides it.
fn float_checks(weights: [f64; 7], temperature: f32) -> FloatChecks {
    let sum: f64 = weights.iter().sum();
    FloatChecks {
        weight_sum_off: if (sum - 1.0).abs() > 0.001 { Some(format!("{:.3}", sum)) } else { None },
        negative_weights: NAMES.iter().zip(weights).filter(|(_, w)| *w < 0.0).map(|(n, _)| n.to_string()).collect(),
        temperature_in_range: (0.0..=2.0).contains(&temperature),
    }
}

fn default_values() -> ConfigValues {
    ConfigValues {
        parallel_workers: default_parallel_workers(),
        default_limit: default_query_limit(),
        timeout_secs: default_timeout(),
        retry_attempts: default_retry_attempts(),
        max_tokens: default_max_tokens(),
    }
}

/// Validation as the configuration reports it.
fn validate(v: &ConfigValues, f: &FloatChecks) -> Result<(), String> {
    validate_config(v, f).map_err(|e| format!("configuration validation failed:\n{e}"))
}

#[test]
fn config_validation_valid() {
    assert!(validate(&default_values(), &float_checks(DEFAULT_WEIGHTS, 0.2)).is_ok());
}

#[test]
fn config_validation_zero_workers() {
    let v = ConfigValues { parallel_workers: 0, ..default_values() };
    let err = validate(&v, &float_checks(DEFAULT_WEIGHTS, 0.2)).unwrap_err();
    assert!(err.contains("parallel_workers must be at least 1"));
}

#[test]
fn config_validation_weight_sum() {
    let mut w = DEFAULT_WEIGHTS;
    w[0] = 0.5;
    w[1] = 0.5;
    let err = validate(&default_values(), &float_checks(w, 0.2)).unwrap_err();
    assert!(err.contains("must sum to 1.0"));
}

#[test]
fn config_validation_negative_weight() {
    let w = [-0.1, 0.3, 0.15, 0.20, 0.05, 0.05, 0.35];
    let err = validate(&default_values(), &float_checks(w, 0.2)).unwrap_err();
    assert!(err.contains("must be non-negative"));
}

#[test]
fn validation_lists_every_error_in_order() {
    let v = ConfigValues { parallel_workers: 65, default_limit: 0, timeout_secs: 301, retry_attempts: 11, max_tokens: 0 };
    let f = FloatChecks {
        weight_sum_off: Some("0.900".to_string()),
        negative_weights: vec!["vector".to_string()],
        temperature_in_range: false,
    };
    assert_eq!(
        validation_errors(&v, &f),
        vec![
            "index.parallel_workers must be at most 64",
            "query.default_limit must be at least 1",
            "query.rerank_weights must sum to 1.0, got 0.900",
            "query.rerank_weights.vector must be non-negative",
            "llm.timeout_secs must be at most 300",
            "llm.retry_attempts must be at most 10",
            "llm.max_tokens must be at least 1",
            "llm.temperature must be between 0.0 and 2.0",
        ]
    );
    assert_eq!(
        validate_config(&ConfigValues { max_tokens: 0, ..default_values() }, &float_checks(DEFAULT_WEIGHTS, 3.0)),
        Err("llm.max_tokens must be at least 1\nllm.temperature must be between 0.0 and 2.0".to_string())
    );
}
