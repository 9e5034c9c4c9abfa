//! The provider registry's pure core: a table from provider name to entry,
//! with deterministic overwrite-last-wins registration and exact lookup
//! contracts.
//!
//! The surrounding runtime builds the table exactly once behind a lazy
//! initialization gate and shares it behind a reader-writer lock; provider
//! construction itself is asynchronous and happens outside this core, which
//! only decides which entry a request selects.

use vstd::prelude::*;

use crate::json::str_eq;

verus! {

/// The statically known provider kinds.
#[derive(Clone, Copy, PartialEq, Eq, Structural, Debug)]
pub enum ProviderType {
    OpenAi,
    Local,
}

/// Descriptive metadata a provider advertises.
pub struct ProviderMetadata {
    pub name: String,
    pub display_name: String,
    pub description: String,
    pub default_model: String,
    pub known_models: Vec<String>,
    pub model_doc_link: String,
    pub notes: Vec<String>,
}

/// Field-for-field equality of metadata, over views.
pub open spec fn meta_eq(a: ProviderMetadata, b: ProviderMetadata) -> bool {
    &&& a.name@ == b.name@
    &&& a.display_name@ == b.display_name@
    &&& a.description@ == b.description@
    &&& a.default_model@ == b.default_model@
    &&& a.known_models.deep_view() == b.known_models.deep_view()
    &&& a.model_doc_link@ == b.model_doc_link@
    &&& a.notes.deep_view() == b.notes.deep_view()
}

/// One registered provider: its unique name, metadata, kind, and whether it
/// is the process default.  The constructor the entry stands for is
/// dispatched on `provider_type` by the runtime around this core.
pub struct ProviderEntry {
    pub name: String,
    pub metadata: ProviderMetadata,
    pub provider_type: ProviderType,
    pub is_default: bool,
}

/// Field-for-field equality of entries, over views.
pub open spec fn entry_eq(a: ProviderEntry, b: ProviderEntry) -> bool {
    &&& a.name@ == b.name@
    &&& meta_eq(a.metadata, b.metadata)
    &&& a.provider_type == b.provider_type
    &&& a.is_default == b.is_default
}

/// Lookup failures of the registry.
#[derive(Debug)]
pub enum RegistryError {
    /// The requested name is not registered.
    ProviderNotFound(String),
    /// The requested name is refused outright by this build.
    UnsupportedProvider(String),
}

impl RegistryError {
    /// A human-readable description of the failure.
    pub fn message(&self) -> (r: String)
        ensures
            self matches RegistryError::ProviderNotFound(n) ==> r@ == "Unknown provider: "@
                + n@,
            self matches RegistryError::UnsupportedProvider(n) ==> r@
                == "Unsupported provider '"@ + n@ + "'. This build supports only 'openai'"@,
    {
        match self {
            RegistryError::ProviderNotFound(n) => {
                let mut m = "Unknown provider: ".to_owned();
                m.append(n.as_str());
                m
            }
            RegistryError::UnsupportedProvider(n) => {
                let mut m = "Unsupported provider '".to_owned();
                m.append(n.as_str());
                m.append("'. This build supports only 'openai'");
                m
            }
        }
    }
}

/// The table of registered providers, keyed by name.
pub struct ProviderRegistry {
    pub entries: Vec<ProviderEntry>,
}

impl ProviderRegistry {
    /// Whether some entry carries `name`.
    pub open spec fn spec_has_name(self, name: Seq<char>) -> bool {
        exists|i: int| 0 <= i < self.entries@.len() && self.entries@[i].name@ == name
    }

    /// Names are pairwise distinct.
    pub open spec fn wf(self) -> bool {
        forall|i: int, j: int|
            0 <= i < j < self.entries@.len() ==> self.entries@[i].name@ != self.entries@[j].name@
    }

    /// An empty registry.
    pub fn new() -> (r: ProviderRegistry)
        ensures
            r.entries@.len() == 0,
            r.wf(),
    {
        ProviderRegistry { entries: Vec::new() }
    }

    /// Register an entry.  Registering a name twice is a logic error; this
    /// table resolves it deterministically by overwriting the earlier
    /// entry in place (last registration wins).
    #[verifier::loop_isolation(false)]
    pub fn register(&mut self, entry: ProviderEntry)
        requires
            old(self).wf(),
        ensures
            final(self).wf(),
            final(self).spec_has_name(entry.name@),
            !old(self).spec_has_name(entry.name@) ==> final(self).entries@ == old(
                self,
            ).entries@.push(entry),
            old(self).spec_has_name(entry.name@) ==> {
                &&& final(self).entries@.len() == old(self).entries@.len()
                &&& exists|i: int|
                    0 <= i < old(self).entries@.len() && old(self).entries@[i].name@
                        == entry.name@ && final(self).entries@ == old(self).entries@.update(
                        i,
                        entry,
                    )
            },
    {
        let mut i: usize = 0;
        while i < self.entries.len()
            invariant
                i <= self.entries@.len(),
                forall|j: int| 0 <= j < i ==> self.entries@[j].name@ != entry.name@,
                *self == *old(self),
            decreases self.entries@.len() - i,
        {
            if str_eq(self.entries[i].name.as_str(), entry.name.as_str()) {
                proof {
                    assert(old(self).entries@[i as int].name@ == entry.name@);
                }
                self.entries.set(i, entry);
                proof {
                    assert(self.entries@ =~= old(self).entries@.update(i as int, entry));
                    assert(self.entries@[i as int].name@ == entry.name@);
                    assert(self.spec_has_name(entry.name@));
                    assert forall|a: int, b: int|
                        0 <= a < b < self.entries@.len() implies self.entries@[a].name@
                        != self.entries@[b].name@ by {
                        assert(old(self).entries@[a].name@ != old(self).entries@[b].name@);
                    }
                }
                return ;
            }
            i = i + 1;
        }
        let ghost n = self.entries@.len();
        self.entries.push(entry);
        proof {
            assert(self.entries@ =~= old(self).entries@.push(entry));
            assert(self.entries@[n as int].name@ == entry.name@);
            assert(self.spec_has_name(entry.name@));
            assert forall|a: int, b: int|
                0 <= a < b < self.entries@.len() implies self.entries@[a].name@
                != self.entries@[b].name@ by {
                if b < n {
                    assert(old(self).entries@[a].name@ != old(self).entries@[b].name@);
                } else {
                    assert(self.entries@[a].name@ == old(self).entries@[a].name@);
                    assert(self.entries@[b].name@ == entry.name@);
                }
            }
        }
    }

    /// Look an entry up by name; an unregistered name always fails with
    /// `ProviderNotFound` carrying that name, and never anything else.
    pub fn get<'a>(&'a self, name: &str) -> (r: Result<&'a ProviderEntry, RegistryError>)
        ensures
            r is Ok <==> self.spec_has_name(name@),
            r matches Ok(e) ==> exists|i: int|
                0 <= i < self.entries@.len() && *e == self.entries@[i] && e.name@ == name@,
            r matches Err(err) ==> (err matches RegistryError::ProviderNotFound(n) && n@ == name@),
    {
        let mut i: usize = 0;
        while i < self.entries.len()
            invariant
                i <= self.entries@.len(),
                forall|j: int| 0 <= j < i ==> self.entries@[j].name@ != name@,
            decreases self.entries@.len() - i,
        {
            if str_eq(self.entries[i].name.as_str(), name) {
                return Ok(&self.entries[i]);
            }
            i = i + 1;
        }
        Err(RegistryError::ProviderNotFound(name.to_owned()))
    }

    /// Every entry's metadata paired with its kind, in registration order.
    pub fn all_metadata_with_types(&self) -> (r: Vec<(ProviderMetadata, ProviderType)>)
        ensures
            r@.len() == self.entries@.len(),
            forall|i: int|
                0 <= i < r@.len() ==> meta_eq((#[trigger] r@[i]).0, self.entries@[i].metadata)
                    && r@[i].1 == self.entries@[i].provider_type,
    {
        let mut out: Vec<(ProviderMetadata, ProviderType)> = Vec::new();
        let mut i: usize = 0;
        while i < self.entries.len()
            invariant
                i <= self.entries@.len(),
                out@.len() == i as int,
                forall|j: int|
                    0 <= j < i ==> meta_eq((#[trigger] out@[j]).0, self.entries@[j].metadata)
                        && out@[j].1 == self.entries@[j].provider_type,
            decreases self.entries@.len() - i,
        {
            let m = dup_metadata(&self.entries[i].metadata);
            out.push((m, self.entries[i].provider_type));
            i = i + 1;
        }
        out
    }
}

/// A field-for-field copy of a string list.
fn dup_strings(v: &Vec<String>) -> (r: Vec<String>)
    ensures
        r.deep_view() == v.deep_view(),
{
    let mut out: Vec<String> = Vec::new();
    let mut i: usize = 0;
    while i < v.len()
        invariant
            i <= v@.len(),
            out@.len() == i as int,
            forall|j: int| 0 <= j < i ==> (#[trigger] out@[j])@ == v@[j]@,
        decreases v@.len() - i,
    {
        out.push(v[i].clone());
        i = i + 1;
    }
    proof {
        assert(out.deep_view() =~= v.deep_view());
    }
    out
}

/// A field-for-field copy of provider metadata.
pub fn dup_metadata(m: &ProviderMetadata) -> (r: ProviderMetadata)
    ensures
        meta_eq(r, *m),
{
    ProviderMetadata {
        name: m.name.clone(),
        display_name: m.display_name.clone(),
        description: m.description.clone(),
        default_model: m.default_model.clone(),
        known_models: dup_strings(&m.known_models),
        model_doc_link: m.model_doc_link.clone(),
        notes: dup_strings(&m.notes),
    }
}

/// A field-for-field copy of an entry.
pub fn dup_entry(e: &ProviderEntry) -> (r: ProviderEntry)
    ensures
        entry_eq(r, *e),
{
    ProviderEntry {
        name: e.name.clone(),
        metadata: dup_metadata(&e.metadata),
        provider_type: e.provider_type,
        is_default: e.is_default,
    }
}

/// A model configuration: the model identifier and its numeric limits.
pub struct ModelConfig {
    pub model_name: String,
    pub context_limit: Option<u64>,
}

/// The canonical context window this build assumes for OpenAI models.
pub const OPENAI_CONTEXT_LIMIT: u64 = 128000;

impl ModelConfig {
    /// A configuration for `model_name` with no limits set.
    pub fn new(model_name: String) -> (r: ModelConfig)
        ensures
            r.model_name@ == model_name@,
            r.context_limit is None,
    {
        ModelConfig { model_name, context_limit: None }
    }

    /// Apply the canonical limits of the named provider; providers without
    /// canonical limits leave the configuration unchanged.
    pub fn with_canonical_limits(self, provider_name: &str) -> (r: ModelConfig)
        ensures
            r.model_name@ == self.model_name@,
            provider_name@ == "openai"@ ==> r.context_limit == Some(OPENAI_CONTEXT_LIMIT),
            provider_name@ != "openai"@ ==> r.context_limit == self.context_limit,
    {
        if str_eq(provider_name, "openai") {
            ModelConfig { model_name: self.model_name, context_limit: Some(OPENAI_CONTEXT_LIMIT) }
        } else {
            self
        }
    }

    /// A field-for-field copy.
    pub fn dup(&self) -> (r: ModelConfig)
        ensures
            r.model_name@ == self.model_name@,
            r.context_limit == self.context_limit,
    {
        ModelConfig { model_name: self.model_name.clone(), context_limit: self.context_limit }
    }
}

/// Select an entry for a request: only `"openai"` is served by this build;
/// any other name is refused before the table is consulted, and a missing
/// entry is reported as not found.
pub fn get_from_registry(registry: &ProviderRegistry, name: &str) -> (r: Result<
    ProviderEntry,
    RegistryError,
>)
    ensures
        name@ != "openai"@ ==> (r matches Err(RegistryError::UnsupportedProvider(n)) && n@
            == name@),
        name@ == "openai"@ && registry.spec_has_name(name@) ==> (r matches Ok(e) && exists|i: int|
            0 <= i < registry.entries@.len() && entry_eq(e, registry.entries@[i])
                && e.name@ == name@),
        name@ == "openai"@ && !registry.spec_has_name(name@) ==> (r matches Err(
            RegistryError::ProviderNotFound(n),
        ) && n@ == name@),
{
    if !str_eq(name, "openai") {
        return Err(RegistryError::UnsupportedProvider(name.to_owned()));
    }
    match registry.get(name) {
        Ok(e) => Ok(dup_entry(e)),
        Err(err) => Err(err),
    }
}

/// Plan the creation of a provider under an explicitly named model: the
/// same name gate as `get_from_registry`, then the canonical model limits
/// of that provider.  The runtime hands the plan to the entry's
/// asynchronous constructor.
pub fn plan_create_with_named_model(
    registry: &ProviderRegistry,
    provider_name: &str,
    model_name: &str,
) -> (r: Result<(ProviderEntry, ModelConfig), RegistryError>)
    ensures
        provider_name@ != "openai"@ ==> (r matches Err(RegistryError::UnsupportedProvider(n))
            && n@ == provider_name@),
        provider_name@ == "openai"@ && registry.spec_has_name(provider_name@) ==> (r matches Ok(
            plan,
        ) && plan.0.name@ == provider_name@ && plan.1.model_name@ == model_name@
            && plan.1.context_limit == Some(OPENAI_CONTEXT_LIMIT)),
        provider_name@ == "openai"@ && !registry.spec_has_name(provider_name@) ==> (r matches Err(
            RegistryError::ProviderNotFound(n),
        ) && n@ == provider_name@),
{
    if !str_eq(provider_name, "openai") {
        return Err(RegistryError::UnsupportedProvider(provider_name.to_owned()));
    }
    let entry = match get_from_registry(registry, provider_name) {
        Ok(e) => e,
        Err(err) => {
            return Err(err);
        }
    };
    let config = ModelConfig::new(model_name.to_owned()).with_canonical_limits(provider_name);
    Ok((entry, config))
}

} // verus!
