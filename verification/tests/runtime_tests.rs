use goose_providers::local_inference::{
    available_inference_memory_bytes, recommend_local_model, resolve_model_path,
    InferenceRuntime, LocalInferenceProvider, LocalModelEntry, LocalModelRegistry,
    ModelSettings, ProviderError,
};
use goose_providers::provider_configs::{get_provider_configs, ProviderConfig};
use goose_providers::registry::{
    get_from_registry, plan_create_with_named_model, ModelConfig, ProviderEntry,
    ProviderRegistry, ProviderType, RegistryError, OPENAI_CONTEXT_LIMIT,
};
use goose_providers::retry::{
    delay_for_attempt, next_retry_action, run_retries, AttemptOutcome, BackoffPolicy,
    RetryConfig, RetryDecision, RetryRun,
};

fn openai_entry() -> ProviderEntry {
    ProviderEntry {
        name: "openai".to_string(),
        metadata: LocalInferenceProvider::metadata(),
        provider_type: ProviderType::OpenAi,
        is_default: true,
    }
}

#[test]
fn registry_lookup_miss_is_provider_not_found() {
    let registry = ProviderRegistry::new();
    match registry.get("openai") {
        Err(RegistryError::ProviderNotFound(name)) => assert_eq!(name, "openai"),
        _ => panic!("an empty registry must report provider-not-found"),
    }
}

#[test]
fn registry_register_then_get() {
    let mut registry = ProviderRegistry::new();
    registry.register(openai_entry());
    let entry = registry.get("openai").unwrap();
    assert_eq!(entry.name, "openai");
    assert!(entry.is_default);
    assert_eq!(registry.all_metadata_with_types().len(), 1);
}

#[test]
fn registry_overwrites_duplicate_registration() {
    let mut registry = ProviderRegistry::new();
    registry.register(openai_entry());
    let mut second = openai_entry();
    second.is_default = false;
    registry.register(second);
    assert_eq!(registry.all_metadata_with_types().len(), 1);
    assert!(!registry.get("openai").unwrap().is_default);
}

#[test]
fn get_from_registry_refuses_other_providers() {
    let mut registry = ProviderRegistry::new();
    registry.register(openai_entry());
    match get_from_registry(&registry, "anthropic") {
        Err(RegistryError::UnsupportedProvider(name)) => {
            assert_eq!(name, "anthropic");
        }
        _ => panic!("non-openai names must be refused"),
    }
    let err = RegistryError::UnsupportedProvider("anthropic".to_string());
    assert_eq!(
        err.message(),
        "Unsupported provider 'anthropic'. This build supports only 'openai'"
    );
}

#[test]
fn plan_create_with_named_model_applies_canonical_limits() {
    let mut registry = ProviderRegistry::new();
    registry.register(openai_entry());
    let (entry, config) =
        plan_create_with_named_model(&registry, "openai", "gpt-4o-mini").unwrap();
    assert_eq!(entry.name, "openai");
    assert_eq!(config.model_name, "gpt-4o-mini");
    assert_eq!(config.context_limit, Some(OPENAI_CONTEXT_LIMIT));
}

#[test]
fn retry_succeeds_on_third_attempt_with_budget_of_three() {
    let config = RetryConfig {
        max_attempts: 3,
        backoff: BackoffPolicy::Fixed { delay_ms: 1 },
    };
    let outcomes = vec![
        AttemptOutcome::RetryableFailure,
        AttemptOutcome::RetryableFailure,
        AttemptOutcome::Success,
    ];
    let run = run_retries(&config, &outcomes);
    assert_eq!(
        run,
        RetryRun { attempts: 3, outcome: AttemptOutcome::Success }
    );
}

#[test]
fn retry_stops_after_one_attempt_on_fatal_error() {
    let config = RetryConfig {
        max_attempts: 5,
        backoff: BackoffPolicy::Fixed { delay_ms: 1 },
    };
    let outcomes = vec![
        AttemptOutcome::FatalFailure,
        AttemptOutcome::Success,
        AttemptOutcome::Success,
        AttemptOutcome::Success,
        AttemptOutcome::Success,
    ];
    let run = run_retries(&config, &outcomes);
    assert_eq!(
        run,
        RetryRun { attempts: 1, outcome: AttemptOutcome::FatalFailure }
    );
}

#[test]
fn retry_exhaustion_reports_last_error_and_attempt_count() {
    let config = RetryConfig {
        max_attempts: 3,
        backoff: BackoffPolicy::Fixed { delay_ms: 1 },
    };
    let outcomes = vec![
        AttemptOutcome::RetryableFailure,
        AttemptOutcome::RetryableFailure,
        AttemptOutcome::RetryableFailure,
    ];
    let run = run_retries(&config, &outcomes);
    assert_eq!(run.attempts, 3);
    assert_eq!(run.outcome, AttemptOutcome::RetryableFailure);
    assert_eq!(
        next_retry_action(&config, 3, AttemptOutcome::RetryableFailure),
        RetryDecision::GiveUp { attempts: 3 }
    );
}

#[test]
fn retry_never_retries_success() {
    let config = RetryConfig {
        max_attempts: 4,
        backoff: BackoffPolicy::Fixed { delay_ms: 1 },
    };
    assert_eq!(
        next_retry_action(&config, 1, AttemptOutcome::Success),
        RetryDecision::Finish
    );
}

#[test]
fn exponential_backoff_doubles_up_to_its_bound() {
    let b = BackoffPolicy::Exponential { initial_ms: 100, max_ms: 400 };
    assert_eq!(delay_for_attempt(&b, 1), 100);
    assert_eq!(delay_for_attempt(&b, 2), 200);
    assert_eq!(delay_for_attempt(&b, 3), 400);
    assert_eq!(delay_for_attempt(&b, 4), 400);
    let f = BackoffPolicy::Fixed { delay_ms: 25 };
    assert_eq!(delay_for_attempt(&f, 7), 25);
}

#[test]
fn provider_configs_expose_openai_with_its_key_variable() {
    let configs = get_provider_configs();
    assert_eq!(configs.len(), 1);
    assert_eq!(configs[0].name, "openai");
    assert_eq!(configs[0].model_name, "gpt-4o");
    assert_eq!(configs[0].required_env_vars.len(), 1);
    assert_eq!(configs[0].required_env_vars[0], "OPENAI_API_KEY");
    assert!(!configs[0].is_skipped());
}

#[test]
fn skipped_configs_report_themselves() {
    let config =
        ProviderConfig::simple_skip("mistral", "mistral-small", Some("no account".to_string()));
    assert!(config.is_skipped());
    assert_eq!(config.required_env_vars[0], "MISTRAL_API_KEY");
}

#[test]
fn local_model_resolution_finds_registered_models() {
    let registry = LocalModelRegistry {
        models: vec![LocalModelEntry {
            model_id: "tiny".to_string(),
            local_path: "/models/tiny.gguf".to_string(),
            settings: ModelSettings { context_size: Some(2048) },
        }],
    };
    let (path, ctx, settings) = resolve_model_path(&registry, "tiny").unwrap();
    assert_eq!(path, "/models/tiny.gguf");
    assert_eq!(ctx, 2048);
    assert_eq!(settings.context_size, Some(2048));
    assert!(resolve_model_path(&registry, "huge").is_none());

    let unsized_registry = LocalModelRegistry {
        models: vec![LocalModelEntry {
            model_id: "bare".to_string(),
            local_path: "/models/bare.gguf".to_string(),
            settings: ModelSettings { context_size: None },
        }],
    };
    let (_, ctx, _) = resolve_model_path(&unsized_registry, "bare").unwrap();
    assert_eq!(ctx, 0);
}

#[test]
fn local_inference_stub_reports_unsupported() {
    let runtime = InferenceRuntime::get_or_init();
    assert_eq!(available_inference_memory_bytes(&runtime), 0);
    assert_eq!(
        recommend_local_model(&runtime),
        "bartowski/Llama-3.2-1B-Instruct-GGUF:Q4_K_M"
    );
    let ProviderError::NotImplemented(message) = LocalInferenceProvider::unsupported_error();
    assert_eq!(message, "Local inference is not available in Windows builds yet");
}

#[test]
fn local_provider_keeps_its_model_config() {
    let provider = LocalInferenceProvider::from_env(ModelConfig::new("tiny".to_string()));
    assert_eq!(provider.get_name(), "local");
    assert_eq!(provider.get_model_config().model_name, "tiny");
    let metadata = LocalInferenceProvider::metadata();
    assert_eq!(metadata.name, "local");
    assert_eq!(metadata.display_name, "Local Inference");
}
