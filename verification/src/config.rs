//! Configuration of the tool and of the graph store, with their defaults.

use vstd::prelude::*;
use crate::text::owned;

verus! {

// ---------------------------------------------------------------------------
// Defaults of `.chizu.toml`
// ---------------------------------------------------------------------------

/// The file patterns excluded from indexing by default.
pub open spec fn default_exclude_patterns_spec() -> Seq<Seq<char>> {
    seq!["**/target/**"@, "**/.git/**"@, "**/node_modules/**"@, "**/*.db"@, "**/*.db.usearch"@]
}

/// The file patterns excluded from indexing by default.
pub fn default_exclude_patterns() -> (res: Vec<String>)
    ensures
        crate::paths::string_views(res@) == default_exclude_patterns_spec(),
{
    let mut res: Vec<String> = Vec::new();
    res.push(owned("**/target/**"));
    res.push(owned("**/.git/**"));
    res.push(owned("**/node_modules/**"));
    res.push(owned("**/*.db"));
    res.push(owned("**/*.db.usearch"));
    assert(crate::paths::string_views(res@) =~= default_exclude_patterns_spec());
    res
}

/// Four indexing workers by default.
pub fn default_parallel_workers() -> (res: usize)
    ensures
        res == 4,
{
    4
}

/// Fifteen results by default.
pub fn default_query_limit() -> (res: usize)
    ensures
        res == 15,
{
    15
}

/// A local OpenAI-compatible endpoint by default.
pub fn default_base_url() -> (res: String)
    ensures
        res@ == "http://localhost:11434/v1"@,
{
    owned("http://localhost:11434/v1")
}

/// No API key by default.
pub fn default_api_key() -> (res: String)
    ensures
        res@ == Seq::<char>::empty(),
{
    String::new()
}

/// The default model for LLM operations.
pub fn default_model() -> (res: String)
    ensures
        res@ == "gpt-4o-mini"@,
{
    owned("gpt-4o-mini")
}

/// Sixty seconds of timeout by default.
pub fn default_timeout() -> (res: u64)
    ensures
        res == 60,
{
    60
}

/// Three retries by default.
pub fn default_retry_attempts() -> (res: u32)
    ensures
        res == 3,
{
    3
}

/// 512 tokens per response by default.
pub fn default_max_tokens() -> (res: u32)
    ensures
        res == 512,
{
    512
}

/// Embeddings are not generated during indexing by default.
pub fn default_embedding_enabled() -> (res: bool)
    ensures
        res == false,
{
    false
}

/// The embedding provider by default.
pub fn default_embedding_provider() -> (res: String)
    ensures
        res@ == "ollama"@,
{
    owned("ollama")
}

/// The embedding endpoint by default.
pub fn default_embedding_base_url() -> (res: String)
    ensures
        res@ == "http://localhost:11434/v1"@,
{
    owned("http://localhost:11434/v1")
}

/// The embedding model by default.
pub fn default_embedding_model() -> (res: String)
    ensures
        res@ == "nomic-embed-text"@,
{
    owned("nomic-embed-text")
}

/// 768 embedding dimensions by default.
pub fn default_embedding_dimensions() -> (res: usize)
    ensures
        res == 768,
{
    768
}

/// 32 texts per embedding request by default.
pub fn default_embedding_batch_size() -> (res: usize)
    ensures
        res == 32,
{
    32
}

/// 120 seconds of embedding timeout by default.
pub fn default_embedding_timeout() -> (res: u64)
    ensures
        res == 120,
{
    120
}

/// No embedding API key by default.
pub fn default_embedding_api_key() -> (res: String)
    ensures
        res@ == Seq::<char>::empty(),
{
    String::new()
}

/// Indexing configuration.
#[derive(Debug, Clone)]
pub struct IndexConfig {
    /// File patterns to exclude from indexing.
    pub exclude_patterns: Vec<String>,
    /// Number of parallel indexing workers.
    pub parallel_workers: usize,
}

impl Default for IndexConfig {
    fn default() -> (res: Self)
        ensures
            crate::paths::string_views(res.exclude_patterns@) == default_exclude_patterns_spec(),
            res.parallel_workers == 4,
    {
        IndexConfig { exclude_patterns: default_exclude_patterns(), parallel_workers: default_parallel_workers() }
    }
}

/// Embedding configuration for vector search.
#[derive(Debug, Clone)]
pub struct EmbeddingConfig {
    /// Whether embeddings are generated during indexing.
    pub enabled: bool,
    /// Provider type: "ollama" or "openai".
    pub provider: String,
    /// Base URL of the embedding API.
    pub base_url: String,
    /// API key (needed for OpenAI, not for Ollama).
    pub api_key: String,
    /// Model used for embeddings.
    pub model: String,
    /// Embedding dimensions (must match the model).
    pub dimensions: usize,
    /// Texts per embedding request.
    pub batch_size: usize,
    /// Timeout in seconds.
    pub timeout_secs: u64,
}

impl Default for EmbeddingConfig {
    fn default() -> (res: Self)
        ensures
            res.enabled == false,
            res.provider@ == "ollama"@,
            res.base_url@ == "http://localhost:11434/v1"@,
            res.api_key@ == Seq::<char>::empty(),
            res.model@ == "nomic-embed-text"@,
            res.dimensions == 768,
            res.batch_size == 32,
            res.timeout_secs == 120,
    {
        EmbeddingConfig {
            enabled: default_embedding_enabled(),
            provider: default_embedding_provider(),
            base_url: default_embedding_base_url(),
            api_key: default_embedding_api_key(),
            model: default_embedding_model(),
            dimensions: default_embedding_dimensions(),
            batch_size: default_embedding_batch_size(),
            timeout_secs: default_embedding_timeout(),
        }
    }
}

/// What the float-valued settings amount to, decided by the caller: the
/// rerank weights' sum written with three decimals when it is not within
/// 0.001 of 1, the names of the negative weights, and whether the
/// temperature is within `0.0..=2.0`.
#[derive(Debug, Clone, PartialEq, Eq)]
pub struct FloatChecks {
    pub weight_sum_off: Option<String>,
    pub negative_weights: Vec<String>,
    pub temperature_in_range: bool,
}

/// The settings that validation reads.
#[derive(Debug, Clone, PartialEq, Eq)]
pub struct ConfigValues {
    pub parallel_workers: usize,
    pub default_limit: usize,
    pub timeout_secs: u64,
    pub retry_attempts: u32,
    pub max_tokens: u32,
}

pub open spec fn msg_if(cond: bool, msg: Seq<char>) -> Seq<Seq<char>> {
    if cond {
        seq![msg]
    } else {
        Seq::empty()
    }
}

/// The validation errors of a configuration, in the order they are
/// checked: workers, result limit, weights, timeout, retries, tokens,
/// temperature.
pub open spec fn validation_errors_spec(v: ConfigValues, f: FloatChecks) -> Seq<Seq<char>> {
    msg_if(v.parallel_workers == 0, "index.parallel_workers must be at least 1"@) + msg_if(
        v.parallel_workers > 64,
        "index.parallel_workers must be at most 64"@,
    ) + msg_if(v.default_limit == 0, "query.default_limit must be at least 1"@) + msg_if(
        v.default_limit > 1000,
        "query.default_limit must be at most 1000"@,
    ) + match f.weight_sum_off {
        Some(sum) => seq!["query.rerank_weights must sum to 1.0, got "@ + sum@],
        None => Seq::empty(),
    } + f.negative_weights@.map_values(
        |n: String| "query.rerank_weights."@ + n@ + " must be non-negative"@,
    ) + msg_if(v.timeout_secs == 0, "llm.timeout_secs must be at least 1"@) + msg_if(
        v.timeout_secs > 300,
        "llm.timeout_secs must be at most 300"@,
    ) + msg_if(v.retry_attempts > 10, "llm.retry_attempts must be at most 10"@) + msg_if(
        v.max_tokens == 0,
        "llm.max_tokens must be at least 1"@,
    ) + msg_if(!f.temperature_in_range, "llm.temperature must be between 0.0 and 2.0"@)
}

fn push_if(errors: &mut Vec<String>, cond: bool, msg: &str)
    ensures
        crate::paths::string_views(final(errors)@) == crate::paths::string_views(old(errors)@) + msg_if(cond, msg@),
{
    let ghost before = crate::paths::string_views(errors@);
    if cond {
        errors.push(owned(msg));
        assert(crate::paths::string_views(errors@) == before.push(msg@));
        assert(before.push(msg@) == before + seq![msg@]);
    } else {
        assert(before + Seq::<Seq<char>>::empty() == before);
    }
}

/// The validation errors of a configuration (see `validation_errors_spec`).
#[verifier::rlimit(40)]
pub fn validation_errors(v: &ConfigValues, f: &FloatChecks) -> (res: Vec<String>)
    ensures
        crate::paths::string_views(res@) == validation_errors_spec(*v, *f),
{
    let mut errors: Vec<String> = Vec::new();
    push_if(&mut errors, v.parallel_workers == 0, "index.parallel_workers must be at least 1");
    push_if(&mut errors, v.parallel_workers > 64, "index.parallel_workers must be at most 64");
    push_if(&mut errors, v.default_limit == 0, "query.default_limit must be at least 1");
    push_if(&mut errors, v.default_limit > 1000, "query.default_limit must be at most 1000");
    let ghost a = crate::paths::string_views(errors@);
    match &f.weight_sum_off {
        Some(sum) => {
            let mut m = owned("query.rerank_weights must sum to 1.0, got ");
            crate::text::push_str(&mut m, sum.as_str());
            errors.push(m);
            assert(crate::paths::string_views(errors@) == a + seq!["query.rerank_weights must sum to 1.0, got "@ + sum@]);
        },
        None => {
            assert(a + Seq::<Seq<char>>::empty() == a);
        },
    }
    let ghost b = crate::paths::string_views(errors@);
    let ghost names = f.negative_weights@.map_values(|n: String| "query.rerank_weights."@ + n@ + " must be non-negative"@);
    let mut k: usize = 0;
    while k < f.negative_weights.len()
        invariant
            k <= f.negative_weights@.len(),
            names == f.negative_weights@.map_values(|n: String| "query.rerank_weights."@ + n@ + " must be non-negative"@),
            crate::paths::string_views(errors@) == b + names.take(k as int),
        decreases f.negative_weights.len() - k,
    {
        let mut m = owned("query.rerank_weights.");
        crate::text::push_str(&mut m, f.negative_weights[k].as_str());
        crate::text::push_str(&mut m, " must be non-negative");
        let ghost before = crate::paths::string_views(errors@);
        errors.push(m);
        assert(crate::paths::string_views(errors@) == before.push(names[k as int]));
        k += 1;
        assert(names.take(k as int) == names.take(k - 1).push(names[k - 1]));
    }
    assert(names.take(f.negative_weights@.len() as int) == names);
    push_if(&mut errors, v.timeout_secs == 0, "llm.timeout_secs must be at least 1");
    push_if(&mut errors, v.timeout_secs > 300, "llm.timeout_secs must be at most 300");
    push_if(&mut errors, v.retry_attempts > 10, "llm.retry_attempts must be at most 10");
    push_if(&mut errors, v.max_tokens == 0, "llm.max_tokens must be at least 1");
    push_if(&mut errors, !f.temperature_in_range, "llm.temperature must be between 0.0 and 2.0");
    errors
}

/// Lines joined by newlines.
pub open spec fn join_lines(items: Seq<Seq<char>>) -> Seq<char>
    decreases items.len(),
{
    if items.len() == 0 {
        Seq::empty()
    } else if items.len() == 1 {
        items[0]
    } else {
        join_lines(items.drop_last()) + "\n"@ + items.last()
    }
}

/// Validate a configuration: `Err` with the errors, one per line, when
/// there are any.
pub fn validate_config(v: &ConfigValues, f: &FloatChecks) -> (res: Result<(), String>)
    ensures
        validation_errors_spec(*v, *f).len() == 0 ==> res is Ok,
        validation_errors_spec(*v, *f).len() > 0 ==> (res matches Err(m) && m@ == join_lines(validation_errors_spec(*v, *f))),
{
    let errors = validation_errors(v, f);
    if errors.len() == 0 {
        return Ok(());
    }
    let ghost es = crate::paths::string_views(errors@);
    let mut out = String::new();
    let mut k: usize = 0;
    assert(es.take(0) == Seq::<Seq<char>>::empty());
    while k < errors.len()
        invariant
            k <= errors@.len(),
            es == crate::paths::string_views(errors@),
            out@ == join_lines(es.take(k as int)),
        decreases errors.len() - k,
    {
        assert(es.take(k + 1).drop_last() == es.take(k as int));
        assert(es.take(k + 1).last() == errors@[k as int]@);
        if k > 0 {
            crate::text::push_str(&mut out, "\n");
        }
        crate::text::push_str(&mut out, errors[k].as_str());
        k += 1;
        proof {
            if k == 1 {
                assert(es.take(1).len() == 1);
                assert(out@ == Seq::<char>::empty() + errors@[0]@);
            }
        }
    }
    assert(es.take(errors@.len() as int) == es);
    Err(out)
}

} // verus!
