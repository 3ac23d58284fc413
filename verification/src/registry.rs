//! The channel registry: one multi-subscriber broadcast channel per output
//! label that any `SpawnAgent` action of the configuration declares. It is
//! built once, before the run starts, by scanning the whole graph; a label
//! no spawn action declares has no channel, and asking for one yields
//! nothing.

use crate::config::{Action, Config};
use vstd::prelude::*;

verus! {

/// Messages a broadcast channel keeps for a subscriber that has not drained
/// yet; one that falls further behind is told how many messages it lost.
pub const CHANNEL_CAPACITY: usize = 100;

#[verifier::external_type_specification]
#[verifier::external_body]
#[verifier::reject_recursive_types(T)]
pub struct ExSender<T>(tokio::sync::broadcast::Sender<T>);

#[verifier::external_type_specification]
#[verifier::external_body]
#[verifier::reject_recursive_types(T)]
pub struct ExReceiver<T>(tokio::sync::broadcast::Receiver<T>);

/// Relies on tokio::sync::broadcast::channel: creates a broadcast channel
/// that keeps `capacity` messages (rounded up to the next power of two)
/// for slow subscribers, and returns its first send and receive handles.
/// It panics on a capacity of zero or above usize::MAX/2, which the bound
/// here rules out.
#[verifier::external_body]
fn new_broadcast_channel(capacity: usize) -> (r: (
    tokio::sync::broadcast::Sender<String>,
    tokio::sync::broadcast::Receiver<String>,
))
    requires
        1 <= capacity <= usize::MAX / 2,
{
    tokio::sync::broadcast::channel(capacity)
}

/// Relies on tokio's Sender::clone: another send handle of the same
/// channel.
#[verifier::external_body]
fn clone_sender(tx: &tokio::sync::broadcast::Sender<String>) -> tokio::sync::broadcast::Sender<
    String,
> {
    tx.clone()
}

/// Relies on Sender::subscribe: a fresh receive handle that sees the
/// messages sent after this call.
#[verifier::external_body]
fn subscribe_to(tx: &tokio::sync::broadcast::Sender<String>) -> tokio::sync::broadcast::Receiver<
    String,
> {
    tx.subscribe()
}

/// Whether the actions of the states before position `si`, together with
/// the first `aj` actions of the state at `si`, declare `label` as a spawn
/// output label.
spec fn declares_in_prefix(
    states: Seq<(String, crate::config::AgentConfig)>,
    si: int,
    aj: int,
    label: Seq<char>,
) -> bool {
    exists|i: int, j: int|
        0 <= i < states.len() && 0 <= j < states[i].1.actions@.len() && (i < si || (i == si && j
            < aj)) && ((#[trigger] states[i].1.actions@[j]) matches Action::SpawnAgent {
            agent_data,
        } && agent_data.output_label@ == label)
}

/// The label-to-channel table. Labels are unique; each holds the send
/// handle of its channel, from which publishers are cloned and subscribers
/// are derived.
pub struct ChannelRegistry {
    channels: Vec<(String, tokio::sync::broadcast::Sender<String>)>,
}

impl ChannelRegistry {
    /// Whether a channel under `label` exists.
    pub closed spec fn has_label(self, label: Seq<char>) -> bool {
        exists|i: int| 0 <= i < self.channels@.len() && (#[trigger] self.channels@[i]).0@ == label
    }

    /// Label uniqueness: one channel per label.
    pub closed spec fn wf(self) -> bool {
        forall|i: int, j: int|
            0 <= i < j < self.channels@.len() ==> (#[trigger] self.channels@[i]).0@ != (
            #[trigger] self.channels@[j]).0@
    }

    fn contains_label(&self, label: &String) -> (b: bool)
        ensures
            b == self.has_label(label@),
    {
        let mut i: usize = 0;
        while i < self.channels.len()
            invariant
                i <= self.channels@.len(),
                forall|j: int| 0 <= j < i ==> (#[trigger] self.channels@[j]).0@ != label@,
            decreases self.channels@.len() - i,
        {
            let entry = &self.channels[i];
            if entry.0 == *label {
                return true;
            }
            i = i + 1;
        }
        false
    }

    /// An empty registry.
    pub fn new() -> (r: ChannelRegistry)
        ensures
            r.wf(),
            forall|l: Seq<char>| !r.has_label(l),
    {
        ChannelRegistry { channels: Vec::new() }
    }

    /// Scans the whole configuration and creates one channel per distinct
    /// output label declared by a `SpawnAgent` action, eagerly and before
    /// any state executes.
    pub fn build(config: &Config) -> (r: ChannelRegistry)
        ensures
            r.wf(),
            forall|l: Seq<char>| r.has_label(l) <==> config.declares_output_label(l),
    {
        let mut r = ChannelRegistry { channels: Vec::new() };
        let mut si: usize = 0;
        while si < config.states.len()
            invariant
                si <= config.states@.len(),
                r.wf(),
                forall|l: Seq<char>|
                    r.has_label(l) <==> declares_in_prefix(config.states@, si as int, 0, l),
            decreases config.states@.len() - si,
        {
            let state = &config.states[si].1;
            let mut aj: usize = 0;
            while aj < state.actions.len()
                invariant
                    si < config.states@.len(),
                    aj <= state.actions@.len(),
                    *state == config.states@[si as int].1,
                    r.wf(),
                    forall|l: Seq<char>|
                        r.has_label(l) <==> declares_in_prefix(
                            config.states@,
                            si as int,
                            aj as int,
                            l,
                        ),
                decreases state.actions@.len() - aj,
            {
                let ghost r_old = r;
                match &state.actions[aj] {
                    Action::SpawnAgent { agent_data } => {
                        if !r.contains_label(&agent_data.output_label) {
                            let (tx, _rx) = new_broadcast_channel(CHANNEL_CAPACITY);
                            let label = agent_data.output_label.clone();
                            r.channels.push((label, tx));
                            proof {
                                assert(forall|i: int|
                                    0 <= i < r_old.channels@.len() ==> r.channels@[i]
                                        == r_old.channels@[i]);
                                assert(forall|l: Seq<char>|
                                    r.has_label(l) <==> (r_old.has_label(l) || l
                                        == agent_data.output_label@)) by {
                                    assert(forall|l: Seq<char>|
                                        r_old.has_label(l) ==> r.has_label(l)) by {
                                        assert(forall|i: int|
                                            0 <= i < r_old.channels@.len()
                                                ==> (#[trigger] r.channels@[i])
                                                == r_old.channels@[i]);
                                    }
                                    assert(r.channels@[r.channels@.len() - 1].0@
                                        == agent_data.output_label@);
                                }
                            }
                        }
                    },
                    _ => {},
                }
                proof {
                    lemma_prefix_extend(config.states@, si as int, aj as int);
                    assert(forall|l: Seq<char>|
                        r.has_label(l) <==> declares_in_prefix(
                            config.states@,
                            si as int,
                            aj + 1,
                            l,
                        ));
                }
                aj = aj + 1;
            }
            proof {
                assert(forall|l: Seq<char>|
                    declares_in_prefix(config.states@, si as int, state.actions@.len() as int, l)
                        <==> declares_in_prefix(config.states@, si + 1, 0, l));
            }
            si = si + 1;
        }
        proof {
            assert(forall|l: Seq<char>|
                declares_in_prefix(config.states@, config.states@.len() as int, 0, l)
                    <==> config.declares_output_label(l));
        }
        r
    }

    /// A clone of the channel's publish handle, or nothing where no spawn
    /// action declares the label.
    pub fn publisher_for(&self, label: &String) -> (r: Option<
        tokio::sync::broadcast::Sender<String>,
    >)
        ensures
            r is Some <==> self.has_label(label@),
    {
        let mut i: usize = 0;
        while i < self.channels.len()
            invariant
                i <= self.channels@.len(),
                forall|j: int| 0 <= j < i ==> (#[trigger] self.channels@[j]).0@ != label@,
            decreases self.channels@.len() - i,
        {
            let entry = &self.channels[i];
            if entry.0 == *label {
                return Some(clone_sender(&entry.1));
            }
            i = i + 1;
        }
        None
    }

    /// A fresh subscription to the channel, seeing only messages sent after
    /// this call, or nothing where no spawn action declares the label.
    pub fn subscriber_for(&self, label: &String) -> (r: Option<
        tokio::sync::broadcast::Receiver<String>,
    >)
        ensures
            r is Some <==> self.has_label(label@),
    {
        let mut i: usize = 0;
        while i < self.channels.len()
            invariant
                i <= self.channels@.len(),
                forall|j: int| 0 <= j < i ==> (#[trigger] self.channels@[j]).0@ != label@,
            decreases self.channels@.len() - i,
        {
            let entry = &self.channels[i];
            if entry.0 == *label {
                return Some(subscribe_to(&entry.1));
            }
            i = i + 1;
        }
        None
    }
}

proof fn lemma_prefix_extend(states: Seq<(String, crate::config::AgentConfig)>, si: int, aj: int)
    requires
        0 <= si < states.len(),
        0 <= aj < states[si].1.actions@.len(),
    ensures
        forall|l: Seq<char>|
            declares_in_prefix(states, si, aj + 1, l) <==> (declares_in_prefix(states, si, aj, l)
                || ((#[trigger] states[si].1.actions@[aj]) matches Action::SpawnAgent { agent_data }
                && agent_data.output_label@ == l)),
{
}

} // verus!
