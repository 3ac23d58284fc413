use agent_engine::config::{Action, AgentConfig, Config};
use agent_engine::models::{AgentConfigSource, AgentData};
use agent_engine::registry::ChannelRegistry;
use agent_engine::state_machine::{input_wait_result, RecvOutcome};
use tokio::sync::broadcast::error::TryRecvError;

fn spawn_action(output_label: &str) -> Action {
    let child = Config {
        initial_state_key: "start".to_string(),
        label: "child".to_string(),
        states: Vec::new(),
    };
    Action::SpawnAgent {
        agent_data: AgentData {
            config_source: AgentConfigSource::Inline {
                agent_config: Box::new(child),
            },
            label: "child".to_string(),
            is_background: false,
            input_label: "in".to_string(),
            output_label: output_label.to_string(),
        },
    }
}

fn config_with_spawns(labels: &[&str]) -> Config {
    Config {
        initial_state_key: "start".to_string(),
        label: "parent".to_string(),
        states: vec![(
            "start".to_string(),
            AgentConfig {
                actions: labels.iter().map(|l| spawn_action(l)).collect(),
                next_state: None,
            },
        )],
    }
}

#[test]
fn test_declared_label_has_channel() {
    let registry = ChannelRegistry::build(&config_with_spawns(&["out1"]));
    assert!(registry.publisher_for(&"out1".to_string()).is_some());
    assert!(registry.subscriber_for(&"out1".to_string()).is_some());
}

#[test]
fn test_undeclared_label_has_no_channel() {
    let registry = ChannelRegistry::build(&config_with_spawns(&["out1"]));
    assert!(registry.publisher_for(&"bogus".to_string()).is_none());
    assert!(registry.subscriber_for(&"bogus".to_string()).is_none());
}

#[test]
fn test_empty_registry_has_no_channels() {
    let registry = ChannelRegistry::new();
    assert!(registry.publisher_for(&"anything".to_string()).is_none());
}

#[test]
fn test_two_subscribers_both_receive_in_publish_order() {
    let registry = ChannelRegistry::build(&config_with_spawns(&["chat"]));
    let tx = registry.publisher_for(&"chat".to_string()).unwrap();
    let mut rx1 = registry.subscriber_for(&"chat".to_string()).unwrap();
    let mut rx2 = registry.subscriber_for(&"chat".to_string()).unwrap();

    tx.send("first".to_string()).unwrap();
    tx.send("second".to_string()).unwrap();

    assert_eq!(rx1.try_recv().unwrap(), "first");
    assert_eq!(rx1.try_recv().unwrap(), "second");
    assert_eq!(rx2.try_recv().unwrap(), "first");
    assert_eq!(rx2.try_recv().unwrap(), "second");
}

#[test]
fn test_late_subscriber_sees_only_later_messages() {
    let registry = ChannelRegistry::build(&config_with_spawns(&["chat"]));
    let tx = registry.publisher_for(&"chat".to_string()).unwrap();
    let mut early = registry.subscriber_for(&"chat".to_string()).unwrap();
    tx.send("before".to_string()).unwrap();
    let mut late = registry.subscriber_for(&"chat".to_string()).unwrap();
    tx.send("after".to_string()).unwrap();

    assert_eq!(early.try_recv().unwrap(), "before");
    assert_eq!(early.try_recv().unwrap(), "after");
    assert_eq!(late.try_recv().unwrap(), "after");
    assert!(matches!(late.try_recv(), Err(TryRecvError::Empty)));
}

#[test]
fn test_slow_subscriber_is_told_of_the_lag() {
    let registry = ChannelRegistry::build(&config_with_spawns(&["busy"]));
    let tx = registry.publisher_for(&"busy".to_string()).unwrap();
    let mut rx = registry.subscriber_for(&"busy".to_string()).unwrap();

    // One more message than the channel keeps (the capacity is rounded up
    // to the next power of two, here 128): the subscriber lost one and is
    // told how many on its next receive.
    for i in 0..129 {
        tx.send(format!("m{}", i)).unwrap();
    }
    match rx.try_recv() {
        Err(TryRecvError::Lagged(n)) => {
            assert_eq!(n, 1);
            // The engine treats a lag notice as no contribution.
            assert_eq!(input_wait_result(RecvOutcome::Lagged(n)), None);
        }
        other => panic!("expected a lag notice, got {:?}", other),
    }
    assert_eq!(rx.try_recv().unwrap(), "m1");
}

#[test]
fn test_one_channel_per_distinct_label() {
    // The same label declared twice gets one channel: a message sent on the
    // publisher handle reaches a subscriber obtained independently.
    let registry = ChannelRegistry::build(&config_with_spawns(&["dup", "dup"]));
    let tx = registry.publisher_for(&"dup".to_string()).unwrap();
    let mut rx = registry.subscriber_for(&"dup".to_string()).unwrap();
    tx.send("hello".to_string()).unwrap();
    assert_eq!(rx.try_recv().unwrap(), "hello");
}
