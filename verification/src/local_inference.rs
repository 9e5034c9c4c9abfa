//! The local-inference provider as this build ships it: a stub that
//! registers, advertises metadata, and reports every invocation as
//! unsupported.
//!
//! The local model registry is modeled as a plain table; path resolution
//! and memory probing are decisions over it.

use vstd::prelude::*;

use crate::json::str_eq;
use crate::registry::{ModelConfig, ProviderMetadata};

verus! {

/// Handle on the process-wide inference runtime; this build carries no
/// engine state.
pub struct InferenceRuntime;

impl InferenceRuntime {
    /// The shared runtime handle, created on first use.
    pub fn get_or_init() -> (r: std::sync::Arc<InferenceRuntime>) {
        std::sync::Arc::new(InferenceRuntime)
    }
}

/// Per-model settings of the local model registry.
pub struct ModelSettings {
    pub context_size: Option<u64>,
}

impl ModelSettings {
    /// A field-for-field copy.
    pub fn dup(&self) -> (r: ModelSettings)
        ensures
            r.context_size == self.context_size,
    {
        ModelSettings { context_size: self.context_size }
    }
}

/// One locally available model: its identifier, where its weights live,
/// and its settings.
pub struct LocalModelEntry {
    pub model_id: String,
    pub local_path: String,
    pub settings: ModelSettings,
}

/// The table of locally available models.
pub struct LocalModelRegistry {
    pub models: Vec<LocalModelEntry>,
}

/// Resolve a model identifier against the local registry: the weight path,
/// the context size (zero when none is configured), and the settings of the
/// first entry carrying the identifier; `None` when no entry does.
pub fn resolve_model_path(registry: &LocalModelRegistry, model_id: &str) -> (r: Option<
    (String, usize, ModelSettings),
>)
    ensures
        match r {
            Some(resolved) => exists|i: int|
                {
                    &&& 0 <= i < registry.models@.len()
                    &&& (#[trigger] registry.models@[i]).model_id@ == model_id@
                    &&& resolved.0@ == registry.models@[i].local_path@
                    &&& resolved.1 as int == {
                        let c: int = match registry.models@[i].settings.context_size {
                            Some(c) => c as int,
                            None => 0,
                        };
                        if c > usize::MAX as int {
                            usize::MAX as int
                        } else {
                            c
                        }
                    }
                    &&& resolved.2.context_size == registry.models@[i].settings.context_size
                },
            None => forall|i: int|
                0 <= i < registry.models@.len() ==> (#[trigger] registry.models@[i]).model_id@
                    != model_id@,
        },
{
    let mut i: usize = 0;
    while i < registry.models.len()
        invariant
            i <= registry.models@.len(),
            forall|j: int|
                0 <= j < i ==> (#[trigger] registry.models@[j]).model_id@ != model_id@,
        decreases registry.models@.len() - i,
    {
        if str_eq(registry.models[i].model_id.as_str(), model_id) {
            let entry = &registry.models[i];
            let ctx: u64 = match entry.settings.context_size {
                Some(c) => c,
                None => 0,
            };
            proof {
                assert(registry.models@[i as int].model_id@ == model_id@);
            }
            if ctx > usize::MAX as u64 {
                return Some((entry.local_path.clone(), usize::MAX, entry.settings.dup()));
            }
            return Some((entry.local_path.clone(), ctx as usize, entry.settings.dup()));
        }
        i = i + 1;
    }
    None
}

/// How much memory the runtime offers for inference; this build reports
/// none.
pub fn available_inference_memory_bytes(_runtime: &InferenceRuntime) -> (r: u64)
    ensures
        r == 0,
{
    0
}

/// The featured model identifiers, most recommendable first.
pub fn featured_models() -> (r: Vec<String>)
    ensures
        r@.len() == 1,
        r@[0]@ == "bartowski/Llama-3.2-1B-Instruct-GGUF:Q4_K_M"@,
{
    let mut out: Vec<String> = Vec::new();
    out.push("bartowski/Llama-3.2-1B-Instruct-GGUF:Q4_K_M".to_owned());
    out
}

/// The model recommended for this machine: the first featured model.
pub fn recommend_local_model(_runtime: &InferenceRuntime) -> (r: String)
    ensures
        r@ == "bartowski/Llama-3.2-1B-Instruct-GGUF:Q4_K_M"@,
{
    let mut models = featured_models();
    models.remove(0)
}

/// Failures a provider reports.
pub enum ProviderError {
    /// The requested capability is not implemented by this build.
    NotImplemented(String),
}

impl ProviderError {
    /// A human-readable description of the failure.
    pub fn message(&self) -> (r: String)
        ensures
            self matches ProviderError::NotImplemented(m) ==> r@ == m@,
    {
        match self {
            ProviderError::NotImplemented(m) => m.clone(),
        }
    }
}

/// The local-inference provider: holds its model configuration; invocation
/// is handled by the runtime around this core.
pub struct LocalInferenceProvider {
    model: ModelConfig,
}

impl LocalInferenceProvider {
    /// The error every invocation of this build reports.
    pub fn unsupported_error() -> (r: ProviderError)
        ensures
            r matches ProviderError::NotImplemented(m) && m@
                == "Local inference is not available in Windows builds yet"@,
    {
        ProviderError::NotImplemented(
            "Local inference is not available in Windows builds yet".to_owned(),
        )
    }

    /// The metadata this provider advertises.
    pub fn metadata() -> (r: ProviderMetadata)
        ensures
            r.name@ == "local"@,
            r.display_name@ == "Local Inference"@,
            r.description@ == "Run local LLMs directly on your machine"@,
            r.default_model@ == "bartowski/Llama-3.2-1B-Instruct-GGUF:Q4_K_M"@,
            r.known_models@.len() == 0,
            r.model_doc_link@ == "https://github.com/utilityai/llama-cpp-rs"@,
            r.notes@.len() == 0,
    {
        ProviderMetadata {
            name: "local".to_owned(),
            display_name: "Local Inference".to_owned(),
            description: "Run local LLMs directly on your machine".to_owned(),
            default_model: "bartowski/Llama-3.2-1B-Instruct-GGUF:Q4_K_M".to_owned(),
            known_models: Vec::new(),
            model_doc_link: "https://github.com/utilityai/llama-cpp-rs".to_owned(),
            notes: Vec::new(),
        }
    }

    /// Construct the provider from its model configuration; this build
    /// reads nothing else from the environment.
    pub fn from_env(model: ModelConfig) -> (r: LocalInferenceProvider)
        ensures
            r.model_config().model_name@ == model.model_name@,
            r.model_config().context_limit == model.context_limit,
    {
        LocalInferenceProvider { model }
    }

    /// The stored model configuration, for contracts.
    pub closed spec fn model_config(&self) -> ModelConfig {
        self.model
    }

    /// This provider's name on the wire.
    pub fn get_name(&self) -> (r: &'static str)
        ensures
            r@ == "local"@,
    {
        "local"
    }

    /// The model configuration this provider was constructed with.
    pub fn get_model_config(&self) -> (r: ModelConfig)
        ensures
            r.model_name@ == self.model_config().model_name@,
            r.context_limit == self.model_config().context_limit,
    {
        self.model.dup()
    }
}

} // verus!
