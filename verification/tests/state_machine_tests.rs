use agent_engine::config::{Action, AgentConfig, Config};
use agent_engine::models::{CallApiData, HttpMethod, LlmData};
use agent_engine::state_machine::{
    collect_responses, input_wait_result, join_lines, request_body, resolve_llm_prompts,
    ActionOutcome, RecvOutcome, StateMachine, StepStatus,
};
use agent_engine::template::EnvMap;

fn empty_env() -> EnvMap {
    EnvMap { entries: Vec::new() }
}

fn one_state_config(key: &str, actions: Vec<Action>, next_state: Option<&str>) -> Config {
    Config {
        initial_state_key: key.to_string(),
        label: "test".to_string(),
        states: vec![(
            key.to_string(),
            AgentConfig {
                actions,
                next_state: next_state.map(|s| s.to_string()),
            },
        )],
    }
}

#[test]
fn test_run_parallel_actions() {
    // One state with one WaitForInput action and no next state; the wait
    // receives "test", so the run stops with that single response.
    let config = one_state_config("start", vec![Action::WaitForInput], None);
    let mut machine = StateMachine::new_with_config(config);
    assert!(machine.current_state().is_some());

    let received = input_wait_result(RecvOutcome::Received("test".to_string()));
    let outcomes = vec![match received {
        Some(s) => ActionOutcome::Output(s),
        None => ActionOutcome::NoOutput,
    }];
    let status = machine.step(&outcomes, &empty_env());

    assert_eq!(status, StepStatus::Stop);
    let responses = machine.response_buffer;
    assert_eq!(responses.len(), 1);
    assert_eq!(responses[0], "test");
}

#[test]
fn test_no_next_state_stops_with_accumulated_responses() {
    let config = one_state_config("start", vec![Action::WaitForInput], None);
    let mut machine = StateMachine::new_with_config(config);
    let outcomes = vec![
        ActionOutcome::Output("a".to_string()),
        ActionOutcome::Output("b".to_string()),
    ];
    let status = machine.step(&outcomes, &empty_env());
    assert_eq!(status, StepStatus::Stop);
    assert_eq!(machine.response_buffer, vec!["a".to_string(), "b".to_string()]);
}

#[test]
fn test_missing_next_state_stops_gracefully() {
    let config = one_state_config("start", vec![Action::WaitForInput], Some("elsewhere"));
    let mut machine = StateMachine::new_with_config(config);
    let outcomes = vec![ActionOutcome::Output("kept".to_string())];
    let status = machine.step(&outcomes, &empty_env());
    assert_eq!(status, StepStatus::Stop);
    assert_eq!(machine.response_buffer, vec!["kept".to_string()]);
    assert_eq!(machine.current_state_key, "start");
}

#[test]
fn test_next_state_template_resolves_against_new_context() {
    let mut config = one_state_config("start", vec![Action::WaitForInput], Some("{input}"));
    config.states.push((
        "second".to_string(),
        AgentConfig { actions: Vec::new(), next_state: None },
    ));
    let mut machine = StateMachine::new_with_config(config);
    let outcomes = vec![ActionOutcome::Output("second".to_string())];
    let status = machine.step(&outcomes, &empty_env());
    assert_eq!(status, StepStatus::Continue);
    assert_eq!(machine.current_state_key, "second");
}

#[test]
fn test_result_ordering_keeps_declaration_order() {
    let outcomes = vec![
        ActionOutcome::Output("first".to_string()),
        ActionOutcome::Failed("broken".to_string()),
        ActionOutcome::NoOutput,
        ActionOutcome::Output("second".to_string()),
    ];
    let collected = collect_responses(&outcomes, &Vec::new(), &empty_env());
    assert_eq!(collected, vec!["first".to_string(), "second".to_string()]);
}

#[test]
fn test_all_silent_actions_give_empty_context() {
    let outcomes = vec![
        ActionOutcome::Failed("x".to_string()),
        ActionOutcome::NoOutput,
    ];
    let collected = collect_responses(&outcomes, &vec!["old".to_string()], &empty_env());
    assert_eq!(collected, Vec::<String>::new());
    // An {input} marker resolved against the empty context is empty.
    let resolved =
        agent_engine::template::process_placeholders("{input}", None, &empty_env());
    assert_eq!(resolved, "");
}

#[test]
fn test_results_are_resolved_against_previous_context() {
    let prev = vec!["carried".to_string()];
    let outcomes = vec![ActionOutcome::Output("got {input}".to_string())];
    let collected = collect_responses(&outcomes, &prev, &empty_env());
    assert_eq!(collected, vec!["got carried".to_string()]);
}

#[test]
fn test_failing_child_does_not_stop_the_parent() {
    // A spawn whose child failed contributes nothing; the run still follows
    // next_state as usual.
    let mut config = one_state_config("start", vec![Action::WaitForInput], Some("second"));
    config.states.push((
        "second".to_string(),
        AgentConfig { actions: Vec::new(), next_state: None },
    ));
    let mut machine = StateMachine::new_with_config(config);
    let outcomes = vec![ActionOutcome::Failed(
        "failed to load config from missing.json".to_string(),
    )];
    let status = machine.step(&outcomes, &empty_env());
    assert_eq!(status, StepStatus::Continue);
    assert_eq!(machine.current_state_key, "second");
    assert!(machine.response_buffer.is_empty());
}

#[test]
fn test_unknown_initial_state_stops_immediately() {
    let config = Config {
        initial_state_key: "missing".to_string(),
        label: "test".to_string(),
        states: Vec::new(),
    };
    let mut machine = StateMachine::new_with_config(config);
    assert!(machine.current_state().is_none());
    let status = machine.step(&Vec::new(), &empty_env());
    assert_eq!(status, StepStatus::Stop);
    assert!(machine.response_buffer.is_empty());
}

#[test]
fn test_config_update_resets_to_new_initial_state() {
    let config = one_state_config("start", vec![Action::WaitForInput], None);
    let mut machine = StateMachine::new_with_config(config);
    machine.response_buffer = vec!["kept".to_string()];
    let replacement = one_state_config("fresh", Vec::new(), None);
    machine.apply_config_update(replacement);
    assert_eq!(machine.current_state_key, "fresh");
    assert_eq!(machine.response_buffer, vec!["kept".to_string()]);
}

#[test]
fn test_wait_outcomes_map_to_results() {
    assert_eq!(
        input_wait_result(RecvOutcome::Received("msg".to_string())),
        Some("msg".to_string())
    );
    assert_eq!(input_wait_result(RecvOutcome::Closed), None);
    assert_eq!(input_wait_result(RecvOutcome::Lagged(3)), None);
    assert_eq!(input_wait_result(RecvOutcome::TimedOut), None);
    assert_eq!(input_wait_result(RecvOutcome::NoChannel), None);
}

#[test]
fn test_join_lines() {
    assert_eq!(join_lines(&Vec::new()), "");
    assert_eq!(join_lines(&vec!["one".to_string()]), "one");
    assert_eq!(
        join_lines(&vec!["one".to_string(), "two".to_string(), "three".to_string()]),
        "one\ntwo\nthree"
    );
}

#[test]
fn test_llm_prompts_resolve_against_first_response() {
    let llm = LlmData {
        user_prompt: "summarize {input}".to_string(),
        system_prompt: Some("be {env:TONE}".to_string()),
    };
    let env = EnvMap {
        entries: vec![("TONE".to_string(), "brief".to_string())],
    };
    let buffer = vec!["the text".to_string()];
    let (user, system) = resolve_llm_prompts(&llm, &buffer, &env);
    assert_eq!(user, "summarize the text");
    assert_eq!(system, Some("be brief".to_string()));
}

#[test]
fn test_llm_prompt_without_system_prompt() {
    let llm = LlmData {
        user_prompt: "hello".to_string(),
        system_prompt: None,
    };
    let (user, system) = resolve_llm_prompts(&llm, &Vec::new(), &empty_env());
    assert_eq!(user, "hello");
    assert_eq!(system, None);
}

#[test]
fn test_state_lookup_takes_the_first_entry() {
    let mut config = one_state_config("start", Vec::new(), Some("first"));
    config.states.push((
        "start".to_string(),
        AgentConfig { actions: Vec::new(), next_state: Some("second".to_string()) },
    ));
    let state = config.get_state(&"start".to_string()).unwrap();
    assert_eq!(state.next_state, Some("first".to_string()));
    assert!(config.contains_state(&"start".to_string()));
    assert!(!config.contains_state(&"absent".to_string()));
}

#[test]
fn test_http_method_defaults_to_get() {
    assert_eq!(HttpMethod::default(), HttpMethod::GET);
}

#[test]
fn test_request_body_defaults_to_empty() {
    let mut call = CallApiData {
        url: "http://localhost/x".to_string(),
        auth_header_name: "authorization".to_string(),
        auth_header_value: "token".to_string(),
        method: HttpMethod::POST,
        body: None,
    };
    assert_eq!(request_body(&call), "");
    call.body = Some("payload".to_string());
    assert_eq!(request_body(&call), "payload");
}
