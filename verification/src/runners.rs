//! The backends that can run a task, and their configuration.

use crate::ident::{hyphenated, id_text, SessionId, TraceId};
use std::collections::HashMap;
use vstd::prelude::*;

verus! {

/// The kinds of backend.
#[derive(Clone, Copy, Debug, PartialEq, Eq, Structural)]
pub enum RunnerKind {
    Python,
    Rust,
    LlmGemini,
    LlmOpen,
    Llama,
    LargeModel,
}

/// Limits and settings common to all backends.
#[derive(Clone, Debug)]
pub struct RunnerConfig {
    pub kind: RunnerKind,
    pub session_isolation: bool,
    pub max_memory_mb: Option<usize>,
    pub timeout_seconds: Option<u64>,
    pub env_vars: HashMap<String, String>,
    pub model_path: Option<String>,
    pub context_size: Option<usize>,
    pub api_endpoint: Option<String>,
}

impl RunnerConfig {
    /// Whether the limits are the standard ones: isolated sessions, 2048 MB
    /// of memory, 300 seconds, no environment variables, no endpoint.
    pub open spec fn has_standard_limits(&self) -> bool {
        &&& self.session_isolation
        &&& self.max_memory_mb == Some(2048usize)
        &&& self.timeout_seconds == Some(300u64)
        &&& self.env_vars@ == Map::<String, String>::empty()
        &&& self.api_endpoint is None
    }
}

impl Default for RunnerConfig {
    /// The standard limits for a Python backend with a context of 4096.
    fn default() -> (config: Self)
        ensures
            config.has_standard_limits(),
            config.kind == RunnerKind::Python,
            config.model_path is None,
            config.context_size == Some(4096usize),
    {
        RunnerConfig {
            kind: RunnerKind::Python,
            session_isolation: true,
            max_memory_mb: Some(2048),
            timeout_seconds: Some(300),
            env_vars: HashMap::new(),
            model_path: None,
            context_size: Some(4096),
            api_endpoint: None,
        }
    }
}

/// The text of Python code made to run in isolation for a session.
pub open spec fn isolated_code_text(code: Seq<char>, session_id: SessionId, trace_id: TraceId) -> Seq<
    char,
> {
    "# Session: "@ + hyphenated(session_id) + ", Trace: "@ + hyphenated(trace_id)
        + "\nimport sys\nsys.path.insert(0, '/tmp/session_"@ + hyphenated(session_id) + "')\n"@
        + code
}

/// A Python backend.
#[derive(Clone, Debug)]
pub struct PythonRunner {
    pub config: RunnerConfig,
    pub interpreter: String,
    pub venv_path: Option<String>,
}

impl PythonRunner {
    pub fn new(interpreter: String) -> (runner: Self)
        ensures
            runner.interpreter == interpreter,
            runner.venv_path is None,
            runner.config.has_standard_limits(),
            runner.config.kind == RunnerKind::Python,
            runner.config.model_path is None,
            runner.config.context_size == Some(4096usize),
    {
        let mut config = RunnerConfig::default();
        config.kind = RunnerKind::Python;
        PythonRunner { config, interpreter, venv_path: None }
    }

    /// The same runner inside a virtual environment.
    pub fn with_venv(self, venv_path: String) -> (runner: Self)
        ensures
            runner.venv_path == Some(venv_path),
            runner.interpreter == self.interpreter,
            runner.config == self.config,
    {
        let mut runner = self;
        runner.venv_path = Some(venv_path);
        runner
    }

    pub fn kind(&self) -> (kind: RunnerKind)
        ensures
            kind == RunnerKind::Python,
    {
        RunnerKind::Python
    }

    /// The code that runs in isolation: the caller's code behind a preamble
    /// that names session and trace and puts the session's directory first
    /// on the module path.
    pub fn isolated_code(code: &str, session_id: SessionId, trace_id: TraceId) -> (isolated:
        String)
        ensures
            isolated@ == isolated_code_text(code@, session_id, trace_id),
    {
        let session = id_text(session_id);
        let mut isolated = "# Session: ".to_owned();
        isolated.append(session.as_str());
        isolated.append(", Trace: ");
        isolated.append(id_text(trace_id).as_str());
        isolated.append("\nimport sys\nsys.path.insert(0, '/tmp/session_");
        isolated.append(session.as_str());
        isolated.append("')\n");
        isolated.append(code);
        assert(isolated@ =~= isolated_code_text(code@, session_id, trace_id));
        isolated
    }

    /// A Python backend isolates sessions where its configuration says so.
    pub fn supports_isolation(&self) -> (supported: bool)
        ensures
            supported == self.config.session_isolation,
    {
        self.config.session_isolation
    }
}

/// A local Llama model backend.
#[derive(Clone, Debug)]
pub struct LlamaRunner {
    pub config: RunnerConfig,
    pub model_path: String,
    pub context_size: usize,
}

impl LlamaRunner {
    pub fn new(model_path: String, context_size: usize) -> (runner: Self)
        ensures
            runner.model_path == model_path,
            runner.context_size == context_size,
            runner.config.has_standard_limits(),
            runner.config.kind == RunnerKind::Llama,
            runner.config.model_path == Some(model_path),
            runner.config.context_size == Some(context_size),
    {
        let mut config = RunnerConfig::default();
        config.kind = RunnerKind::Llama;
        config.model_path = Some(model_path.clone());
        config.context_size = Some(context_size);
        LlamaRunner { config, model_path, context_size }
    }

    pub fn kind(&self) -> (kind: RunnerKind)
        ensures
            kind == RunnerKind::Llama,
    {
        RunnerKind::Llama
    }

    pub fn supports_isolation(&self) -> (supported: bool)
        ensures
            supported,
    {
        true
    }
}

/// A hosted large-model backend.
#[derive(Clone, Debug)]
pub struct LargeModelRunner {
    pub config: RunnerConfig,
    pub provider: String,
    pub model_name: String,
    pub api_key: Option<String>,
}

impl LargeModelRunner {
    pub fn new(provider: String, model_name: String) -> (runner: Self)
        ensures
            runner.provider == provider,
            runner.model_name == model_name,
            runner.api_key is None,
            runner.config.has_standard_limits(),
            runner.config.kind == RunnerKind::LargeModel,
            runner.config.model_path is None,
            runner.config.context_size == Some(4096usize),
    {
        let mut config = RunnerConfig::default();
        config.kind = RunnerKind::LargeModel;
        LargeModelRunner { config, provider, model_name, api_key: None }
    }

    /// The same runner with a key for the provider.
    pub fn with_api_key(self, api_key: String) -> (runner: Self)
        ensures
            runner.api_key == Some(api_key),
            runner.provider == self.provider,
            runner.model_name == self.model_name,
            runner.config == self.config,
    {
        let mut runner = self;
        runner.api_key = Some(api_key);
        runner
    }

    pub fn kind(&self) -> (kind: RunnerKind)
        ensures
            kind == RunnerKind::LargeModel,
    {
        RunnerKind::LargeModel
    }

    pub fn supports_isolation(&self) -> (supported: bool)
        ensures
            supported,
    {
        true
    }

    /// A hosted backend is usable once it has a key.
    pub fn has_credentials(&self) -> (ready: bool)
        ensures
            ready == self.api_key is Some,
    {
        self.api_key.is_some()
    }
}

} // verus!
