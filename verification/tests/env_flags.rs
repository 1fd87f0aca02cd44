use sit::app::parse_env_values;
use sit::env_args::{parse_env_kv, split_env_flags};

#[test]
fn parse_env_kv_works() {
    let (k, v) = parse_env_kv("A=B").expect("parse env");
    assert_eq!(k, "A");
    assert_eq!(v, "B");
}

#[test]
fn split_env_flags_extracts_repeatable_values() {
    let args = vec![
        "msg".to_string(),
        "--env".to_string(),
        "A=1".to_string(),
        "--env=B=2".to_string(),
        "tail".to_string(),
    ];

    let (remaining, envs) = split_env_flags(&args).expect("split env flags");
    assert_eq!(remaining, vec!["msg", "tail"]);
    assert_eq!(
        envs,
        vec![("A".to_string(), "1".to_string()), ("B".to_string(), "2".to_string())]
    );
}

#[test]
fn parse_env_kv_errors() {
    assert_eq!(parse_env_kv("novalue").unwrap_err(), "Expected KEY=VALUE");
    assert_eq!(parse_env_kv("  =x").unwrap_err(), "Environment variable key cannot be empty");
    let (k, v) = parse_env_kv(" KEY =a=b ").unwrap();
    assert_eq!(k, "KEY");
    assert_eq!(v, "a=b ");
}

#[test]
fn split_env_flags_needs_a_value_after_env() {
    let args = vec!["msg".to_string(), "--env".to_string()];
    assert_eq!(split_env_flags(&args).unwrap_err(), "--env requires a KEY=VALUE argument");
}

#[test]
fn env_values_parse_in_order_and_stop_at_the_first_error() {
    let ok = parse_env_values(&["A=1".to_string(), "B=2".to_string()]).unwrap();
    assert_eq!(ok, vec![("A".to_string(), "1".to_string()), ("B".to_string(), "2".to_string())]);
    let bad = parse_env_values(&["A=1".to_string(), "oops".to_string(), "=x".to_string()]);
    assert_eq!(bad.unwrap_err(), "Expected KEY=VALUE");
}
