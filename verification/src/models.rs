//! Plain data carried by the actions of a state: HTTP request descriptions,
//! prompt templates, and the wiring data of a spawned sub-engine.

use vstd::prelude::*;

verus! {

/// HTTP method of a `CallApi` action. Defaults to `GET` when the
/// configuration document omits it.
#[derive(Debug, Clone, PartialEq, Eq, Structural)]
pub enum HttpMethod {
    GET,
    POST,
    PUT,
    DELETE,
    PATCH,
    HEAD,
    OPTIONS,
}

impl Default for HttpMethod {
    fn default() -> (r: Self)
        ensures
            r == HttpMethod::GET,
    {
        HttpMethod::GET
    }
}

/// Description of one outbound HTTP request: method, URL, a single custom
/// auth header, and an optional body.
#[derive(Debug, Clone)]
pub struct CallApiData {
    pub url: String,
    pub auth_header_name: String,
    pub auth_header_value: String,
    pub method: HttpMethod,
    pub body: Option<String>,
}

/// Prompt templates of an `Llm` action; both are resolved against the
/// current response context before use.
#[derive(Debug, Clone)]
pub struct LlmData {
    pub user_prompt: String,
    pub system_prompt: Option<String>,
}

/// Carried by a `WaitForInput` action in extended configurations.
#[derive(Debug, Clone)]
pub struct WaitForInputData {
    pub data: String,
}

/// Where a spawned sub-engine's configuration comes from: a document at a
/// path, or a document written inline in the parent's configuration.
#[derive(Debug)]
pub enum AgentConfigSource {
    File { agent_config_file: String },
    Inline { agent_config: Box<crate::config::Config> },
}

/// Wiring of a `SpawnAgent` action: the child's configuration source, its
/// label, and the channel labels that feed it and carry its output.
#[derive(Debug)]
pub struct AgentData {
    pub config_source: AgentConfigSource,
    pub label: String,
    pub is_background: bool,
    pub input_label: String,
    pub output_label: String,
}

} // verus!
