//! Configuration data for a program built around the library.  Reading,
//! merging and defaulting these values from files and the environment
//! happens outside; the library holds only the plain shape.
use vstd::prelude::*;

verus! {

/// Connection settings for a local model server.
#[derive(Debug, PartialEq, Eq)]
pub struct OllamaConfig {
    pub model: String,
    pub api_url: String,
    pub api_port: u16,
}

/// Credentials and endpoints for a hosted chat service.
#[derive(Debug, PartialEq, Eq)]
pub struct GigaChatConfig {
    pub auth_token: Option<String>,
    pub scope: Option<String>,
    pub auth_url: Option<String>,
    pub api_base_url: Option<String>,
}

/// The program's configuration: either backend may be present.
#[derive(Debug, PartialEq, Eq)]
pub struct Config {
    pub ollama: Option<OllamaConfig>,
    pub giga: Option<GigaChatConfig>,
}

} // verus!
