use agent_engine::template::{process_placeholders, EnvMap};

fn env_with(pairs: &[(&str, &str)]) -> EnvMap {
    EnvMap {
        entries: pairs
            .iter()
            .map(|(k, v)| (k.to_string(), v.to_string()))
            .collect(),
    }
}

#[test]
fn test_env_round_trip() {
    let env = env_with(&[("FOO", "bar")]);
    assert_eq!(process_placeholders("{env:FOO}", None, &env), "bar");
}

#[test]
fn test_input_round_trip() {
    let env = EnvMap { entries: Vec::new() };
    let ctx = "world".to_string();
    assert_eq!(process_placeholders("{input}", Some(&ctx), &env), "world");
}

#[test]
fn test_combined_round_trip() {
    let env = env_with(&[("FOO", "bar")]);
    let ctx = "world".to_string();
    assert_eq!(
        process_placeholders("{env:FOO} {input}", Some(&ctx), &env),
        "bar world"
    );
}

#[test]
fn test_output_marker() {
    let env = EnvMap { entries: Vec::new() };
    let ctx = "result".to_string();
    assert_eq!(process_placeholders("{output}", Some(&ctx), &env), "result");
}

#[test]
fn test_unknown_marker_resolves_to_empty() {
    let env = EnvMap { entries: Vec::new() };
    let ctx = "ctx".to_string();
    assert_eq!(process_placeholders("{bogus}", Some(&ctx), &env), "");
}

#[test]
fn test_unknown_marker_does_not_stop_the_scan() {
    let env = env_with(&[("FOO", "bar")]);
    assert_eq!(process_placeholders("a{bogus}b{env:FOO}c", None, &env), "abbarc");
}

#[test]
fn test_literal_text_unchanged() {
    let env = EnvMap { entries: Vec::new() };
    assert_eq!(process_placeholders("plain text", None, &env), "plain text");
}

#[test]
fn test_empty_braces_stay_literal() {
    let env = EnvMap { entries: Vec::new() };
    assert_eq!(process_placeholders("a{}b", None, &env), "a{}b");
}

#[test]
fn test_unclosed_brace_stays_literal() {
    let env = EnvMap { entries: Vec::new() };
    assert_eq!(process_placeholders("a{input", None, &env), "a{input");
}

#[test]
fn test_input_without_context_is_empty() {
    let env = EnvMap { entries: Vec::new() };
    assert_eq!(process_placeholders("{input}", None, &env), "");
}

#[test]
fn test_unset_env_is_empty() {
    let env = EnvMap { entries: Vec::new() };
    assert_eq!(process_placeholders("{env:MISSING}", None, &env), "");
}

#[test]
fn test_substituted_values_are_not_rescanned() {
    let env = env_with(&[("FOO", "{env:FOO}")]);
    assert_eq!(process_placeholders("{env:FOO}", None, &env), "{env:FOO}");
}

#[test]
fn test_env_map_first_entry_wins() {
    let env = env_with(&[("K", "first"), ("K", "second")]);
    assert_eq!(env.get(&"K".to_string()), "first");
}

#[test]
fn test_env_map_absent_is_empty() {
    let env = env_with(&[("K", "v")]);
    assert_eq!(env.get(&"OTHER".to_string()), "");
}
