//! The control graph as data: a configuration maps state keys to state
//! definitions, each an ordered list of actions and an optional next-state
//! template. States are held as a list of `(key, definition)` entries
//! standing for a map from key to state definition; where two entries
//! share a key, the first wins.

use crate::models::{AgentData, CallApiData, LlmData};
use vstd::prelude::*;

verus! {

/// One unit of work executed within a state.
#[derive(Debug)]
pub enum Action {
    CallApi(CallApiData),
    Llm(LlmData),
    SpawnAgent { agent_data: AgentData },
    WaitForInput,
    GetAgentConfig(String),
    SetAgentConfig(String),
}

/// One state of the control graph: its actions, in declaration order, and
/// an optional template for the key of the next state.
#[derive(Debug)]
pub struct AgentConfig {
    pub actions: Vec<Action>,
    pub next_state: Option<String>,
}

/// A whole control graph: the key of the state the run starts in, a label
/// naming the instance, and the state definitions keyed by state key.
#[derive(Debug)]
pub struct Config {
    pub initial_state_key: String,
    pub label: String,
    pub states: Vec<(String, AgentConfig)>,
}

/// The mapping that a list of `(key, state)` entries denotes, earlier
/// entries taking precedence over later ones.
pub open spec fn states_map_of(entries: Seq<(String, AgentConfig)>) -> Map<Seq<char>, AgentConfig>
    decreases entries.len(),
{
    if entries.len() == 0 {
        Map::empty()
    } else {
        states_map_of(entries.drop_first()).insert(entries[0].0@, entries[0].1)
    }
}

proof fn lemma_states_no_match(entries: Seq<(String, AgentConfig)>, key: Seq<char>)
    requires
        forall|j: int| 0 <= j < entries.len() ==> #[trigger] entries[j].0@ != key,
    ensures
        !states_map_of(entries).contains_key(key),
    decreases entries.len(),
{
    if entries.len() > 0 {
        assert(forall|j: int|
            0 <= j < entries.drop_first().len() ==> entries.drop_first()[j] == entries[j + 1]);
        lemma_states_no_match(entries.drop_first(), key);
    }
}

proof fn lemma_states_first_match(entries: Seq<(String, AgentConfig)>, key: Seq<char>, i: int)
    requires
        0 <= i < entries.len(),
        entries[i].0@ == key,
        forall|j: int| 0 <= j < i ==> #[trigger] entries[j].0@ != key,
    ensures
        states_map_of(entries).contains_key(key),
        states_map_of(entries)[key] == entries[i].1,
    decreases entries.len(),
{
    if i > 0 {
        assert(forall|j: int|
            0 <= j < entries.drop_first().len() ==> entries.drop_first()[j] == entries[j + 1]);
        lemma_states_first_match(entries.drop_first(), key, i - 1);
    }
}

impl Config {
    /// The map from state key to state definition that `states` denotes.
    pub open spec fn states_map(self) -> Map<Seq<char>, AgentConfig> {
        states_map_of(self.states@)
    }

    /// Whether a state with the given key exists.
    pub open spec fn has_state(self, key: Seq<char>) -> bool {
        self.states_map().contains_key(key)
    }

    /// Whether some `SpawnAgent` action anywhere in the graph declares
    /// `label` as its output label; only such labels get a channel.
    pub open spec fn declares_output_label(self, label: Seq<char>) -> bool {
        exists|i: int, j: int|
            0 <= i < self.states@.len() && 0 <= j < self.states@[i].1.actions@.len() && ((
            #[trigger] self.states@[i].1.actions@[j]) matches Action::SpawnAgent { agent_data }
                && agent_data.output_label@ == label)
    }

    /// Looks the state definition for `key` up.
    pub fn get_state(&self, key: &String) -> (r: Option<&AgentConfig>)
        ensures
            match r {
                Some(st) => self.has_state(key@) && *st == self.states_map()[key@],
                None => !self.has_state(key@),
            },
    {
        let mut i: usize = 0;
        while i < self.states.len()
            invariant
                i <= self.states@.len(),
                forall|j: int| 0 <= j < i ==> #[trigger] self.states@[j].0@ != key@,
            decreases self.states@.len() - i,
        {
            let entry = &self.states[i];
            if entry.0 == *key {
                proof {
                    lemma_states_first_match(self.states@, key@, i as int);
                }
                return Some(&entry.1);
            }
            i = i + 1;
        }
        proof {
            lemma_states_no_match(self.states@, key@);
        }
        None
    }

    /// Whether a state with the given key exists.
    pub fn contains_state(&self, key: &String) -> (b: bool)
        ensures
            b == self.has_state(key@),
    {
        self.get_state(key).is_some()
    }
}

} // verus!
