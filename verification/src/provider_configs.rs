//! Providers for the scenario tests.

use vstd::prelude::*;

verus! {

/// The uppercase form of a string, character for character.
pub uninterp spec fn upper_of(s: Seq<char>) -> Seq<char>;

/// Relies on str::to_uppercase: the result depends on the characters alone.
#[verifier::external_body]
fn to_upper(s: &str) -> (r: String)
    ensures
        r@ == upper_of(s@),
{
    s.to_uppercase()
}

/// One provider a scenario can run against, with the environment it needs.
pub struct ProviderConfig {
    pub name: String,
    pub model_name: String,
    pub required_env_vars: Vec<String>,
    pub env_modifications: Option<Vec<(String, Option<String>)>>,
    pub skip_reason: Option<String>,
}

impl ProviderConfig {
    /// A configuration that requires only the provider's conventional
    /// `<NAME>_API_KEY` variable, with an optional reason to skip it.
    pub fn simple_skip(name: &str, model_name: &str, skip_reason: Option<String>) -> (r:
        ProviderConfig)
        ensures
            r.name@ == name@,
            r.model_name@ == model_name@,
            r.required_env_vars@.len() == 1,
            r.required_env_vars@[0]@ == upper_of(name@) + "_API_KEY"@,
            r.env_modifications is None,
            r.skip_reason == skip_reason,
    {
        let mut key = to_upper(name);
        key.append("_API_KEY");
        let mut required_env_vars: Vec<String> = Vec::new();
        required_env_vars.push(key);
        ProviderConfig {
            name: name.to_owned(),
            model_name: model_name.to_owned(),
            required_env_vars,
            env_modifications: None,
            skip_reason,
        }
    }

    /// A configuration that is never skipped.
    pub fn simple(name: &str, model_name: &str) -> (r: ProviderConfig)
        ensures
            r.name@ == name@,
            r.model_name@ == model_name@,
            r.required_env_vars@.len() == 1,
            r.required_env_vars@[0]@ == upper_of(name@) + "_API_KEY"@,
            r.env_modifications is None,
            r.skip_reason is None,
    {
        ProviderConfig::simple_skip(name, model_name, None)
    }

    /// Whether this configuration is skipped.
    pub fn is_skipped(&self) -> (r: bool)
        ensures
            r == (self.skip_reason is Some),
    {
        self.skip_reason.is_some()
    }
}

/// The provider configurations a scenario run considers: every known
/// configuration that is not skipped.  This build knows exactly one,
/// `openai` with its scenario model.
pub fn get_provider_configs() -> (r: Vec<ProviderConfig>)
    ensures
        r@.len() == 1,
        r@[0].name@ == "openai"@,
        r@[0].model_name@ == "gpt-4o"@,
        r@[0].skip_reason is None,
{
    let mut all = known_provider_configs();
    let first = all.remove(0);
    let mut out: Vec<ProviderConfig> = Vec::new();
    if !first.is_skipped() {
        out.push(first);
    }
    out
}

/// Every provider configuration this build knows, skipped or not.
pub fn known_provider_configs() -> (r: Vec<ProviderConfig>)
    ensures
        r@.len() == 1,
        r@[0].name@ == "openai"@,
        r@[0].model_name@ == "gpt-4o"@,
        r@[0].skip_reason is None,
{
    let mut out: Vec<ProviderConfig> = Vec::new();
    out.push(ProviderConfig::simple("openai", "gpt-4o"));
    out
}

} // verus!
