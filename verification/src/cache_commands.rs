//! The rules of the cache commands: what a new cache is created with, which
//! combinations of `configure` options are refused and what patch the
//! others make, when a destruction is confirmed, and how a cache's
//! configuration is reported.

use vstd::prelude::*;
use vstd::string::StringExecFns;

use crate::text::{opt_view, concat_strs, debug_quoted, debug_text, i64_decimal, join, joined, signed_decimal, str_eq, u64_decimal, decimal};

verus! {

broadcast use vstd::string::group_string_axioms;

/// How the signing keypair of a cache is set.
#[derive(Clone, Copy, Debug, PartialEq, Eq, Structural)]
pub enum KeypairConfig {
    /// The server generates a new keypair.
    Generate,
}

/// How long a cache keeps unaccessed objects.
#[derive(Clone, Copy, Debug, PartialEq, Eq, Structural)]
pub enum RetentionPeriodConfig {
    /// This many seconds.
    Period(u32),
    /// The server's global default.
    Global,
}

/// The configuration of a cache, or a patch of it: fields left `None` are
/// not reported, or not changed.
#[derive(Debug)]
pub struct CacheConfig {
    pub keypair: Option<KeypairConfig>,
    pub substituter_endpoint: Option<String>,
    pub api_endpoint: Option<String>,
    pub public_key: Option<String>,
    pub is_public: Option<bool>,
    pub store_dir: Option<String>,
    pub priority: Option<i32>,
    pub upstream_cache_key_names: Option<Vec<String>>,
    pub retention_period: Option<RetentionPeriodConfig>,
}

/// A list of strings that may be absent, as the contracts see it.
pub open spec fn opt_list_view(v: Option<Vec<String>>) -> Option<Seq<Seq<char>>> {
    match v {
        Some(x) => Some(x.deep_view()),
        None => None,
    }
}

impl CacheConfig {
    /// A patch that changes nothing.
    pub fn blank() -> (r: CacheConfig)
        ensures
            r.keypair is None,
            r.substituter_endpoint is None,
            r.api_endpoint is None,
            r.public_key is None,
            r.is_public is None,
            r.store_dir is None,
            r.priority is None,
            r.upstream_cache_key_names is None,
            r.retention_period is None,
    {
        CacheConfig {
            keypair: None,
            substituter_endpoint: None,
            api_endpoint: None,
            public_key: None,
            is_public: None,
            store_dir: None,
            priority: None,
            upstream_cache_key_names: None,
            retention_period: None,
        }
    }
}

/// What a new cache is created with.
#[derive(Debug)]
pub struct CreateCacheRequest {
    pub keypair: KeypairConfig,
    pub is_public: bool,
    pub store_dir: String,
    pub priority: i32,
    pub upstream_cache_key_names: Vec<String>,
}

/// The request that creates a cache with the given options; the server
/// generates its signing keypair.
pub fn create_cache_request(
    public: bool,
    priority: i32,
    store_dir: String,
    upstream_cache_key_names: Vec<String>,
) -> (r: CreateCacheRequest)
    ensures
        r.keypair == KeypairConfig::Generate,
        r.is_public == public,
        r.priority == priority,
        r.store_dir == store_dir,
        r.upstream_cache_key_names == upstream_cache_key_names,
{
    CreateCacheRequest {
        keypair: KeypairConfig::Generate,
        is_public: public,
        store_dir,
        priority,
        upstream_cache_key_names,
    }
}

/// Refusals of the cache commands.
#[derive(Clone, Copy, Debug, PartialEq, Eq, Structural)]
pub enum CacheCommandError {
    /// `--public` and `--private` were both given.
    PublicAndPrivate,
    /// `--retention-period` and `--reset-retention-period` were both given.
    RetentionConflict,
    /// The typed confirmation was not the cache's name.
    IncorrectAnswer,
}

impl CacheCommandError {
    /// The text of the refusal.
    pub open spec fn message_spec(self) -> Seq<char> {
        match self {
            CacheCommandError::PublicAndPrivate => "`--public` and `--private` cannot be set at the same time."@,
            CacheCommandError::RetentionConflict => "`--retention-period` and `--reset-retention-period` cannot be set at the same time."@,
            CacheCommandError::IncorrectAnswer => "Incorrect answer. Aborting..."@,
        }
    }

    /// The text of the refusal.
    pub fn message(self) -> (r: &'static str)
        ensures
            r@ == self.message_spec(),
    {
        match self {
            CacheCommandError::PublicAndPrivate => "`--public` and `--private` cannot be set at the same time.",
            CacheCommandError::RetentionConflict => "`--retention-period` and `--reset-retention-period` cannot be set at the same time.",
            CacheCommandError::IncorrectAnswer => "Incorrect answer. Aborting...",
        }
    }
}

/// The options of `cache configure`.
#[derive(Debug)]
pub struct ConfigureOptions {
    pub regenerate_keypair: bool,
    pub public: bool,
    pub private: bool,
    pub store_dir: Option<String>,
    pub priority: Option<i32>,
    pub upstream_cache_key_names: Option<Vec<String>>,
    /// The retention period, in whole seconds.
    pub retention_period_secs: Option<u64>,
    pub reset_retention_period: bool,
}

/// The refusal that `configure` gives for these options, if any: both
/// visibilities first, then both retention settings.
pub open spec fn configure_refusal(o: ConfigureOptions) -> Option<CacheCommandError> {
    if o.public && o.private {
        Some(CacheCommandError::PublicAndPrivate)
    } else if o.retention_period_secs is Some && o.reset_retention_period {
        Some(CacheCommandError::RetentionConflict)
    } else {
        None
    }
}

/// The retention period that the options set: the given period, cut to 32
/// bits as `as u32` does; the global default when asked to reset; else
/// unchanged.
pub open spec fn retention_patch(o: ConfigureOptions) -> Option<RetentionPeriodConfig> {
    match o.retention_period_secs {
        Some(secs) => Some(RetentionPeriodConfig::Period(secs as u32)),
        None => if o.reset_retention_period {
            Some(RetentionPeriodConfig::Global)
        } else {
            None
        },
    }
}

/// The patch that `cache configure` sends for the options, or its refusal.
pub fn configure_cache_patch(options: ConfigureOptions) -> (r: Result<CacheConfig, CacheCommandError>)
    ensures
        match configure_refusal(options) {
            Some(e) => r == Err::<CacheConfig, CacheCommandError>(e),
            None => r matches Ok(p) && {
                &&& p.is_public == (if options.public {
                    Some(true)
                } else if options.private {
                    Some(false)
                } else {
                    None::<bool>
                })
                &&& p.retention_period == retention_patch(options)
                &&& p.keypair == (if options.regenerate_keypair {
                    Some(KeypairConfig::Generate)
                } else {
                    None
                })
                &&& p.store_dir == options.store_dir
                &&& p.priority == options.priority
                &&& p.upstream_cache_key_names == options.upstream_cache_key_names
                &&& p.substituter_endpoint is None
                &&& p.api_endpoint is None
                &&& p.public_key is None
            },
        },
{
    if options.public && options.private {
        return Err(CacheCommandError::PublicAndPrivate);
    }
    if options.retention_period_secs.is_some() && options.reset_retention_period {
        return Err(CacheCommandError::RetentionConflict);
    }
    let mut patch = CacheConfig::blank();
    if options.public {
        patch.is_public = Some(true);
    } else if options.private {
        patch.is_public = Some(false);
    }
    if let Some(secs) = options.retention_period_secs {
        patch.retention_period = Some(RetentionPeriodConfig::Period(#[verifier::truncate] (secs as u32)));
    } else if options.reset_retention_period {
        patch.retention_period = Some(RetentionPeriodConfig::Global);
    }
    if options.regenerate_keypair {
        patch.keypair = Some(KeypairConfig::Generate);
    }
    patch.store_dir = options.store_dir;
    patch.priority = options.priority;
    patch.upstream_cache_key_names = options.upstream_cache_key_names;
    Ok(patch)
}

/// Destruction goes ahead only when the typed answer is the cache's name.
pub fn check_destroy_confirmation(answer: &str, cache_name: &str) -> (r: Result<(), CacheCommandError>)
    ensures
        r is Ok <==> answer@ == cache_name@,
        r is Err ==> r == Err::<(), CacheCommandError>(CacheCommandError::IncorrectAnswer),
{
    if str_eq(answer, cache_name) {
        Ok(())
    } else {
        Err(CacheCommandError::IncorrectAnswer)
    }
}

/// Destruction goes ahead when confirmation was waived, or when the answer
/// given to the prompt is the cache's name.
pub fn confirm_destroy(no_confirm: bool, answer: Option<&str>, cache_name: &str) -> (r: Result<
    (),
    CacheCommandError,
>)
    ensures
        r is Ok <==> (no_confirm || (answer matches Some(a) && a@ == cache_name@)),
        r is Err ==> r == Err::<(), CacheCommandError>(CacheCommandError::IncorrectAnswer),
{
    if no_confirm {
        return Ok(());
    }
    match answer {
        Some(a) => check_destroy_confirmation(a, cache_name),
        None => Err(CacheCommandError::IncorrectAnswer),
    }
}

/// A line of the report: a label padded to 21 characters, `: ` and the value.
pub open spec fn report_line(label: Seq<char>, value: Seq<char>) -> Seq<char> {
    label + ": "@ + value
}

/// How `{:?}` writes a list of strings: each quoted and escaped, separated
/// by `, `, in brackets.
pub open spec fn debug_list(items: Seq<Seq<char>>) -> Seq<char> {
    "["@ + joined(items.map_values(|s: Seq<char>| debug_text(s)), ", "@) + "]"@
}

/// A report line for a value that may be absent.
pub open spec fn optional_line(label: Seq<char>, value: Option<Seq<char>>) -> Seq<Seq<char>> {
    match value {
        Some(v) => seq![report_line(label, v)],
        None => seq![],
    }
}

/// How a boolean is written.
pub open spec fn bool_text(b: bool) -> Seq<char> {
    if b {
        "true"@
    } else {
        "false"@
    }
}

/// The lines that report a cache's configuration, one for each field that
/// is present, in a fixed order.
pub open spec fn config_report(c: CacheConfig) -> Seq<Seq<char>> {
    optional_line(
        "               Public"@,
        match c.is_public {
            Some(b) => Some(bool_text(b)),
            None => None,
        },
    ) + optional_line("           Public Key"@, opt_view(c.public_key)) + optional_line(
        "Binary Cache Endpoint"@,
        opt_view(c.substituter_endpoint),
    ) + optional_line("         API Endpoint"@, opt_view(c.api_endpoint)) + optional_line(
        "      Store Directory"@,
        opt_view(c.store_dir),
    ) + optional_line(
        "             Priority"@,
        match c.priority {
            Some(p) => Some(signed_decimal(p as int)),
            None => None,
        },
    ) + optional_line(
        "  Upstream Cache Keys"@,
        match opt_list_view(c.upstream_cache_key_names) {
            Some(names) => Some(debug_list(names)),
            None => None,
        },
    ) + optional_line(
        "     Retention Period"@,
        match c.retention_period {
            Some(RetentionPeriodConfig::Period(secs)) => Some(decimal(secs as nat)),
            Some(RetentionPeriodConfig::Global) => Some("Global Default"@),
            None => None,
        },
    )
}

fn push_optional_line(lines: &mut Vec<String>, label: &str, value: Option<String>)
    ensures
        final(lines).deep_view() == old(lines).deep_view() + optional_line(label@, opt_view(value)),
{
    let ghost before = lines.deep_view();
    if let Some(v) = value {
        proof {
            reveal_strlit(": ");
        }
        let mut line = concat_strs(label, ": ");
        line.append(v.as_str());
        lines.push(line);
        assert(lines.deep_view() =~= before + optional_line(label@, opt_view(Some(v))));
    } else {
        assert(lines.deep_view() =~= before + optional_line(label@, opt_view(value)));
    }
}

fn debug_list_text(items: &Vec<String>) -> (r: String)
    ensures
        r@ == debug_list(items.deep_view()),
{
    let mut quoted: Vec<String> = Vec::new();
    let mut i: usize = 0;
    while i < items.len()
        invariant
            i <= items.len(),
            quoted.deep_view() == items.deep_view().take(i as int).map_values(
                |s: Seq<char>| debug_text(s),
            ),
        decreases items.len() - i,
    {
        let q = debug_quoted(items[i].as_str());
        assert(items.deep_view()[i as int] == items@[i as int]@);
        let ghost before = quoted.deep_view();
        quoted.push(q);
        assert(quoted.deep_view() =~= before.push(q@));
        assert(items.deep_view().take(i + 1) =~= items.deep_view().take(i as int).push(
            items.deep_view()[i as int],
        ));
        assert(items.deep_view().take(i + 1).map_values(|s: Seq<char>| debug_text(s))
            =~= items.deep_view().take(i as int).map_values(|s: Seq<char>| debug_text(s)).push(
            debug_text(items.deep_view()[i as int]),
        ));
        i = i + 1;
    }
    assert(items.deep_view().take(i as int) =~= items.deep_view());
    let mut r = String::from_str("[");
    let inner = join(&quoted, ", ");
    r.append(inner.as_str());
    r.append("]");
    r
}

fn public_text(b: Option<bool>) -> (r: Option<String>)
    ensures
        opt_view(r) == match b {
            Some(b) => Some(bool_text(b)),
            None => None,
        },
{
    match b {
        Some(true) => Some(String::from_str("true")),
        Some(false) => Some(String::from_str("false")),
        None => None,
    }
}

fn priority_text(p: Option<i32>) -> (r: Option<String>)
    ensures
        opt_view(r) == match p {
            Some(p) => Some(signed_decimal(p as int)),
            None => None,
        },
{
    match p {
        Some(p) => Some(i64_decimal(p as i64)),
        None => None,
    }
}

fn upstream_text(names: &Option<Vec<String>>) -> (r: Option<String>)
    ensures
        opt_view(r) == match opt_list_view(*names) {
            Some(names) => Some(debug_list(names)),
            None => None,
        },
{
    match names {
        Some(names) => Some(debug_list_text(names)),
        None => None,
    }
}

fn retention_text(period: Option<RetentionPeriodConfig>) -> (r: Option<String>)
    ensures
        opt_view(r) == match period {
            Some(RetentionPeriodConfig::Period(secs)) => Some(decimal(secs as nat)),
            Some(RetentionPeriodConfig::Global) => Some("Global Default"@),
            None => None,
        },
{
    match period {
        Some(RetentionPeriodConfig::Period(secs)) => Some(u64_decimal(secs as u64)),
        Some(RetentionPeriodConfig::Global) => Some(String::from_str("Global Default")),
        None => None,
    }
}

/// The lines that report the configuration of a cache.
pub fn cache_config_report(config: &CacheConfig) -> (r: Vec<String>)
    ensures
        r.deep_view() == config_report(*config),
{
    let mut lines: Vec<String> = Vec::new();
    push_optional_line(&mut lines, "               Public", public_text(config.is_public));
    push_optional_line(&mut lines, "           Public Key", config.public_key.clone());
    push_optional_line(&mut lines, "Binary Cache Endpoint", config.substituter_endpoint.clone());
    push_optional_line(&mut lines, "         API Endpoint", config.api_endpoint.clone());
    push_optional_line(&mut lines, "      Store Directory", config.store_dir.clone());
    push_optional_line(&mut lines, "             Priority", priority_text(config.priority));
    push_optional_line(
        &mut lines,
        "  Upstream Cache Keys",
        upstream_text(&config.upstream_cache_key_names),
    );
    push_optional_line(&mut lines, "     Retention Period", retention_text(config.retention_period));
    assert(lines.deep_view() =~= config_report(*config));
    lines
}

} // verus!
