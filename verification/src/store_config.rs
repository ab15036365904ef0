//! Configuration of the graph store's workspace file, with its defaults.

use vstd::prelude::*;
use crate::text::owned;

verus! {

/// The file patterns that the store's indexer excludes by default.
pub open spec fn default_exclude_patterns_spec() -> Seq<Seq<char>> {
    seq!["**/target/**"@, "**/.git/**"@, "**/node_modules/**"@, "**/.venv/**"@, "**/fuzz/**"@, "**/*.lock"@]
}

/// The file patterns that the store's indexer excludes by default.
pub fn default_exclude_patterns() -> (res: Vec<String>)
    ensures
        crate::paths::string_views(res@) == default_exclude_patterns_spec(),
{
    let mut res: Vec<String> = Vec::new();
    res.push(owned("**/target/**"));
    res.push(owned("**/.git/**"));
    res.push(owned("**/node_modules/**"));
    res.push(owned("**/.venv/**"));
    res.push(owned("**/fuzz/**"));
    res.push(owned("**/*.lock"));
    assert(crate::paths::string_views(res@) =~= default_exclude_patterns_spec());
    res
}

/// Indexing configuration.
#[derive(Debug, Clone)]
pub struct IndexConfig {
    /// File patterns to exclude.
    pub exclude_patterns: Vec<String>,
    /// Number of parallel workers (the CPU count when unset).
    pub parallel_workers: Option<usize>,
}

impl Default for IndexConfig {
    fn default() -> (res: Self)
        ensures
            crate::paths::string_views(res.exclude_patterns@) == default_exclude_patterns_spec(),
            res.parallel_workers is None,
    {
        IndexConfig { exclude_patterns: default_exclude_patterns(), parallel_workers: None }
    }
}

/// Connection settings of a model provider.
#[derive(Debug, Clone, PartialEq, Eq)]
pub struct ProviderConfig {
    /// Base URL of the provider's API.
    pub base_url: String,
    /// API key (empty for local providers such as Ollama).
    pub api_key: String,
    /// Timeout in seconds.
    pub timeout_secs: u64,
    /// Number of retry attempts.
    pub retry_attempts: u32,
}

impl Default for ProviderConfig {
    fn default() -> (res: Self)
        ensures
            res.base_url@ == "http://localhost:11434/v1"@,
            res.api_key@ == Seq::<char>::empty(),
            res.timeout_secs == 120,
            res.retry_attempts == 3,
    {
        ProviderConfig {
            base_url: owned("http://localhost:11434/v1"),
            api_key: String::new(),
            timeout_secs: 120,
            retry_attempts: 3,
        }
    }
}

/// The providers known by default: a local Ollama, by name.
pub fn default_providers() -> (res: Vec<(String, ProviderConfig)>)
    ensures
        res@.len() == 1,
        res@[0].0@ == "ollama"@,
        res@[0].1.base_url@ == "http://localhost:11434/v1"@,
        res@[0].1.api_key@ == Seq::<char>::empty(),
        res@[0].1.timeout_secs == 120,
        res@[0].1.retry_attempts == 3,
{
    let mut res: Vec<(String, ProviderConfig)> = Vec::new();
    res.push((owned("ollama"), ProviderConfig::default()));
    res
}

/// Embedding configuration of the store.
#[derive(Debug, Clone, PartialEq, Eq)]
pub struct EmbeddingConfig {
    /// Provider name (one of the providers).
    pub provider: Option<String>,
    /// Model to use.
    pub model: Option<String>,
    /// Number of dimensions.
    pub dimensions: Option<u32>,
    /// Batch size for embedding generation.
    pub batch_size: Option<usize>,
}

impl Default for EmbeddingConfig {
    fn default() -> (res: Self)
        ensures
            res.provider matches Some(p) && p@ == "ollama"@,
            res.model matches Some(m) && m@ == "nomic-embed-text-v2-moe:latest"@,
            res.dimensions == Some(768u32),
            res.batch_size == Some(32usize),
    {
        EmbeddingConfig {
            provider: Some(owned("ollama")),
            model: Some(owned("nomic-embed-text-v2-moe:latest")),
            dimensions: Some(768),
            batch_size: Some(32),
        }
    }
}

/// Whether a provider of that name is configured.
pub open spec fn has_provider(providers: Seq<(String, ProviderConfig)>, name: Seq<char>) -> bool {
    exists|k: int| 0 <= k < providers.len() && (#[trigger] providers[k]).0@ == name
}

fn provider_known(providers: &Vec<(String, ProviderConfig)>, name: &str) -> (res: bool)
    ensures
        res == has_provider(providers@, name@),
{
    let mut k: usize = 0;
    while k < providers.len()
        invariant
            k <= providers@.len(),
            forall|j: int| 0 <= j < k ==> (#[trigger] providers@[j]).0@ != name@,
        decreases providers.len() - k,
    {
        if crate::text::str_eq(providers[k].0.as_str(), name) {
            return true;
        }
        k += 1;
    }
    false
}

/// Add the default providers that the configuration does not name itself;
/// a provider the configuration names keeps its settings.
pub fn merge_default_providers(providers: &mut Vec<(String, ProviderConfig)>)
    ensures
        has_provider(old(providers)@, "ollama"@) ==> final(providers)@ == old(providers)@,
        !has_provider(old(providers)@, "ollama"@) ==> final(providers)@.len() == old(providers)@.len() + 1
            && final(providers)@.drop_last() == old(providers)@ && final(providers)@.last().0@ == "ollama"@
            && final(providers)@.last().1.base_url@ == "http://localhost:11434/v1"@
            && final(providers)@.last().1.api_key@ == Seq::<char>::empty()
            && final(providers)@.last().1.timeout_secs == 120 && final(providers)@.last().1.retry_attempts == 3,
{
    if !provider_known(providers, "ollama") {
        providers.push((owned("ollama"), ProviderConfig::default()));
        assert(providers@.drop_last() == old(providers)@);
    }
}

/// The first provider that the summary or embedding settings name but
/// that is not configured, checked in that order.
pub open spec fn missing_provider_spec(
    summary: Option<Seq<char>>,
    embedding: Option<Seq<char>>,
    providers: Seq<(String, ProviderConfig)>,
) -> Option<Seq<char>> {
    match summary {
        Some(p) if !has_provider(providers, p) => Some(p),
        _ => match embedding {
            Some(p) if !has_provider(providers, p) => Some(p),
            _ => None,
        },
    }
}

/// The first referenced provider that is not configured (see
/// `missing_provider_spec`).
pub fn missing_provider(
    summary: &Option<String>,
    embedding: &Option<String>,
    providers: &Vec<(String, ProviderConfig)>,
) -> (res: Option<String>)
    ensures
        crate::model::entity::opt_view(res) == missing_provider_spec(
            crate::model::entity::opt_view(*summary),
            crate::model::entity::opt_view(*embedding),
            providers@,
        ),
{
    match summary {
        Some(p) => {
            if !provider_known(providers, p.as_str()) {
                return Some(owned(p.as_str()));
            }
        },
        None => {},
    }
    match embedding {
        Some(p) => {
            if !provider_known(providers, p.as_str()) {
                return Some(owned(p.as_str()));
            }
        },
        None => {},
    }
    None
}

} // verus!
