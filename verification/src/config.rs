//! The configuration of a workflow: its sections, their defaults, the values that come from the
//! environment, and validation.

use vstd::prelude::*;
use vstd::string::*;

use crate::collections::TextMap;
use crate::error::{ErrorView, SymphonyError};
use crate::json;
use crate::json::{Json, JsonView, Number, NumberView};
use crate::text;
use crate::yaml;
use crate::yaml::{Yaml, YamlView};

verus! {

pub const DEFAULT_POLLING_INTERVAL_MS: u64 = 30_000;

pub const DEFAULT_STALL_TIMEOUT_MS: i64 = 600_000;

pub const DEFAULT_HOOK_TIMEOUT_MS: u64 = 60_000;

pub const DEFAULT_MAX_CONCURRENT_AGENTS: u32 = 10;

pub const DEFAULT_MAX_TURNS: u32 = 20;

pub const DEFAULT_MAX_RETRY_BACKOFF_MS: u64 = 300_000;

pub const DEFAULT_TURN_TIMEOUT_MS: u64 = 3_600_000;

pub const DEFAULT_READ_TIMEOUT_MS: u64 = 5_000;

pub const DEFAULT_CODEX_STALL_TIMEOUT_MS: i64 = 300_000;

pub const DEFAULT_REFRESH_MS: u64 = 1_000;

pub const DEFAULT_RENDER_INTERVAL_MS: u64 = 16;

pub const DEFAULT_LOG_MAX_BYTES: u64 = 10_485_760;

pub const DEFAULT_LOG_MAX_FILES: u32 = 5;

/// How issues are found.
#[derive(Debug)]
pub struct TrackerConfig {
    pub kind: Option<String>,
    pub api_key: Option<String>,
    pub endpoint: Option<String>,
    pub project_slug: Option<String>,
    pub assignee: Option<String>,
    pub active_states: Vec<String>,
    pub terminal_states: Vec<String>,
}

impl Default for TrackerConfig {
    fn default() -> (r: Self)
        ensures
            r.kind is None,
            r.api_key is None,
            r.endpoint is None,
            r.project_slug is None,
            r.assignee is None,
            text::texts(r.active_states@) == seq!["Todo"@, "In Progress"@],
            text::texts(r.terminal_states@) == seq!["Done"@, "Canceled"@],
    {
        TrackerConfig {
            kind: None,
            api_key: None,
            endpoint: None,
            project_slug: None,
            assignee: None,
            active_states: default_active_states(),
            terminal_states: default_terminal_states(),
        }
    }
}

/// How often the tracker is polled, and when a session counts as stalled.
#[derive(Debug)]
pub struct PollingConfig {
    pub interval_ms: u64,
    pub stall_timeout_ms: i64,
}

impl Default for PollingConfig {
    fn default() -> (r: Self)
        ensures
            r.interval_ms == DEFAULT_POLLING_INTERVAL_MS,
            r.stall_timeout_ms == DEFAULT_STALL_TIMEOUT_MS,
    {
        PollingConfig {
            interval_ms: DEFAULT_POLLING_INTERVAL_MS,
            stall_timeout_ms: DEFAULT_STALL_TIMEOUT_MS,
        }
    }
}

/// Where workspaces live.
#[derive(Debug)]
pub struct WorkspaceConfig {
    pub root: Option<String>,
}

impl Default for WorkspaceConfig {
    fn default() -> (r: Self)
        ensures
            r.root is None,
    {
        WorkspaceConfig { root: None }
    }
}

/// The remote hosts that may run agents.
#[derive(Debug)]
pub struct WorkerConfig {
    pub ssh_hosts: Vec<String>,
    pub max_concurrent_agents_per_host: Option<u32>,
}

impl Default for WorkerConfig {
    fn default() -> (r: Self)
        ensures
            r.ssh_hosts@.len() == 0,
            r.max_concurrent_agents_per_host is None,
    {
        WorkerConfig { ssh_hosts: Vec::new(), max_concurrent_agents_per_host: None }
    }
}

/// The scripts that run around a workspace's life.
#[derive(Debug)]
pub struct HooksConfig {
    pub after_create: Option<String>,
    pub before_run: Option<String>,
    pub after_run: Option<String>,
    pub before_remove: Option<String>,
    pub timeout_ms: u64,
}

impl Default for HooksConfig {
    fn default() -> (r: Self)
        ensures
            r.after_create is None,
            r.before_run is None,
            r.after_run is None,
            r.before_remove is None,
            r.timeout_ms == DEFAULT_HOOK_TIMEOUT_MS,
    {
        HooksConfig {
            after_create: None,
            before_run: None,
            after_run: None,
            before_remove: None,
            timeout_ms: DEFAULT_HOOK_TIMEOUT_MS,
        }
    }
}

/// How many agents may run, and for how long.
#[derive(Debug)]
pub struct AgentConfig {
    pub max_concurrent_agents: u32,
    pub max_concurrent_agents_by_state: TextMap<u32>,
    pub max_turns: u32,
    pub max_retry_backoff_ms: u64,
}

impl Default for AgentConfig {
    fn default() -> (r: Self)
        ensures
            r.max_concurrent_agents == DEFAULT_MAX_CONCURRENT_AGENTS,
            r.max_concurrent_agents_by_state@ == Map::<Seq<char>, u32>::empty(),
            r.max_turns == DEFAULT_MAX_TURNS,
            r.max_retry_backoff_ms == DEFAULT_MAX_RETRY_BACKOFF_MS,
    {
        AgentConfig {
            max_concurrent_agents: DEFAULT_MAX_CONCURRENT_AGENTS,
            max_concurrent_agents_by_state: TextMap::new(),
            max_turns: DEFAULT_MAX_TURNS,
            max_retry_backoff_ms: DEFAULT_MAX_RETRY_BACKOFF_MS,
        }
    }
}

/// How the coding agent is started.
#[derive(Debug)]
pub struct CodexConfig {
    pub command: Option<String>,
    pub turn_timeout_ms: Option<u64>,
    pub read_timeout_ms: Option<u64>,
    pub stall_timeout_ms: Option<i64>,
    pub approval_policy: Option<Json>,
    pub sandbox: Option<String>,
    pub thread_sandbox: Option<String>,
    pub turn_sandbox_policy: Option<Json>,
}

impl Default for CodexConfig {
    fn default() -> (r: Self)
        ensures
            text::opt_text(r.command) == Some("codex app-server"@),
            r.turn_timeout_ms == Some(DEFAULT_TURN_TIMEOUT_MS),
            r.read_timeout_ms == Some(DEFAULT_READ_TIMEOUT_MS),
            r.stall_timeout_ms == Some(DEFAULT_CODEX_STALL_TIMEOUT_MS),
            r.approval_policy is None,
            r.sandbox is None,
            r.thread_sandbox is None,
            r.turn_sandbox_policy is None,
    {
        CodexConfig {
            command: default_codex_command(),
            turn_timeout_ms: Some(DEFAULT_TURN_TIMEOUT_MS),
            read_timeout_ms: Some(DEFAULT_READ_TIMEOUT_MS),
            stall_timeout_ms: Some(DEFAULT_CODEX_STALL_TIMEOUT_MS),
            approval_policy: None,
            sandbox: None,
            thread_sandbox: None,
            turn_sandbox_policy: None,
        }
    }
}

/// Where the HTTP server listens.
#[derive(Debug)]
pub struct ServerConfig {
    pub host: Option<String>,
    pub port: Option<u16>,
}

impl Default for ServerConfig {
    fn default() -> (r: Self)
        ensures
            text::opt_text(r.host) == Some("127.0.0.1"@),
            r.port is None,
    {
        ServerConfig { host: default_server_host(), port: None }
    }
}

/// The terminal dashboard and the log files.
#[derive(Debug, Clone, Copy)]
pub struct ObservabilityConfig {
    pub dashboard_enabled: bool,
    pub refresh_ms: u64,
    pub render_interval_ms: u64,
    pub log_max_bytes: u64,
    pub log_max_files: u32,
}

impl Default for ObservabilityConfig {
    fn default() -> (r: Self)
        ensures
            r.dashboard_enabled,
            r.refresh_ms == DEFAULT_REFRESH_MS,
            r.render_interval_ms == DEFAULT_RENDER_INTERVAL_MS,
            r.log_max_bytes == DEFAULT_LOG_MAX_BYTES,
            r.log_max_files == DEFAULT_LOG_MAX_FILES,
    {
        ObservabilityConfig {
            dashboard_enabled: true,
            refresh_ms: DEFAULT_REFRESH_MS,
            render_interval_ms: DEFAULT_RENDER_INTERVAL_MS,
            log_max_bytes: DEFAULT_LOG_MAX_BYTES,
            log_max_files: DEFAULT_LOG_MAX_FILES,
        }
    }
}

/// The whole configuration.
#[derive(Debug)]
pub struct SymphonyConfig {
    pub tracker: TrackerConfig,
    pub polling: PollingConfig,
    pub workspace: WorkspaceConfig,
    pub worker: WorkerConfig,
    pub hooks: HooksConfig,
    pub agent: AgentConfig,
    pub codex: CodexConfig,
    pub server: ServerConfig,
    pub observability: ObservabilityConfig,
}

/// The states in which an issue is worked on by default.
pub fn default_active_states() -> (r: Vec<String>)
    ensures
        text::texts(r@) == seq!["Todo"@, "In Progress"@],
{
    let r = vec!["Todo".to_owned(), "In Progress".to_owned()];
    proof {
        assert(text::texts(r@) =~= seq!["Todo"@, "In Progress"@]);
    }
    r
}

/// The states in which an issue is finished by default.
pub fn default_terminal_states() -> (r: Vec<String>)
    ensures
        text::texts(r@) == seq!["Done"@, "Canceled"@],
{
    let r = vec!["Done".to_owned(), "Canceled".to_owned()];
    proof {
        assert(text::texts(r@) =~= seq!["Done"@, "Canceled"@]);
    }
    r
}

/// The command that starts the coding agent by default.
pub fn default_codex_command() -> (r: Option<String>)
    ensures
        text::opt_text(r) == Some("codex app-server"@),
{
    Some("codex app-server".to_owned())
}

/// The address on which the HTTP server listens by default.
pub fn default_server_host() -> (r: Option<String>)
    ensures
        text::opt_text(r) == Some("127.0.0.1"@),
{
    Some("127.0.0.1".to_owned())
}

/// The environment variables of the process.
#[derive(Debug)]
pub struct Environment {
    pub vars: TextMap<String>,
}

/// The value of a variable that is set and not empty.
pub open spec fn variable(env: Map<Seq<char>, Seq<char>>, name: Seq<char>) -> Option<Seq<char>> {
    if env.contains_key(name) && env[name].len() > 0 {
        Some(env[name])
    } else {
        None
    }
}

impl Environment {
    /// The value of a variable that is set and not empty.
    pub fn variable(&self, name: &str) -> (r: Option<String>)
        ensures
            text::opt_text(r) == variable(self.vars@, name@),
    {
        match self.vars.get(name) {
            Some(value) => if value.as_str().is_empty() {
                None
            } else {
                Some(value.clone())
            },
            None => None,
        }
    }
}

/// What a configured value stands for: `$NAME` for the variable `NAME`, anything else for itself.
pub open spec fn resolved(value: Seq<char>, env: Map<Seq<char>, Seq<char>>) -> Option<Seq<char>> {
    if value.len() > 0 && value[0] == '$' {
        variable(env, value.subrange(1, value.len() as int))
    } else {
        Some(value)
    }
}

/// What a configured value stands for.
pub fn resolve_env_var(value: &str, env: &Environment) -> (r: Option<String>)
    ensures
        text::opt_text(r) == resolved(value@, env.vars@),
{
    let n: usize = value.unicode_len();
    if n > 0 && value.get_char(0) == '$' {
        let name = value.substring_char(1, n);
        return env.variable(name);
    }
    Some(value.to_owned())
}

/// The home directory: `HOME`, else `USERPROFILE`.
pub open spec fn home(env: Map<Seq<char>, Seq<char>>) -> Option<Seq<char>> {
    match variable(env, "HOME"@) {
        Some(dir) => Some(dir),
        None => variable(env, "USERPROFILE"@),
    }
}

fn home_dir(env: &Environment) -> (r: Option<String>)
    ensures
        text::opt_text(r) == home(env.vars@),
{
    match env.variable("HOME") {
        Some(dir) => Some(dir),
        None => env.variable("USERPROFILE"),
    }
}

/// A path in which a leading `~` stands for the home directory, where there is one.
pub open spec fn expanded(path: Seq<char>, env: Map<Seq<char>, Seq<char>>) -> Seq<char> {
    if path.len() > 0 && path[0] == '~' {
        match home(env) {
            Some(dir) => dir + path.subrange(1, path.len() as int),
            None => path,
        }
    } else {
        path
    }
}

/// A path in which a leading `~` stands for the home directory, where there is one.
pub fn expand_tilde(path: &str, env: &Environment) -> (r: String)
    ensures
        r@ == expanded(path@, env.vars@),
{
    let n: usize = path.unicode_len();
    if n == 0 || path.get_char(0) != '~' {
        return path.to_owned();
    }
    match home_dir(env) {
        Some(dir) => text::joined(dir.as_str(), path.substring_char(1, n)),
        None => path.to_owned(),
    }
}

/// The limits that count: a limit of zero is dropped and the state names are in lower case. Where
/// two names have the same lower case, either limit may stay.
pub open spec fn limits_folded(input: Map<Seq<char>, u32>, out: Map<Seq<char>, u32>) -> bool {
    &&& forall|name: Seq<char>| #[trigger]
        input.contains_key(name) && input[name] > 0 ==> out.contains_key(text::unicode_lower(name))
            && (text::is_ascii(name) ==> text::unicode_lower(name) == text::lower(name))
    &&& forall|key: Seq<char>| #[trigger]
        out.contains_key(key) ==> out[key] > 0 && exists|name: Seq<char>| #[trigger]
            input.contains_key(name) && text::unicode_lower(name) == key && input[name] == out[key]
}

/// Drops the limits of zero and puts the state names in lower case.
pub fn normalize_state_limit_map(input: &TextMap<u32>) -> (r: TextMap<u32>)
    ensures
        limits_folded(input@, r@),
{
    let mut out: TextMap<u32> = TextMap::new();
    let n: usize = input.len();
    let mut i: usize = 0;
    while i < n
        invariant
            i <= n,
            n == input.order().len(),
            input.order().to_set() == input@.dom(),
            forall|k: int|
                0 <= k < i && input@[#[trigger] input.order()[k]] > 0 ==> out@.contains_key(
                    text::unicode_lower(input.order()[k]),
                ) && (text::is_ascii(input.order()[k]) ==> text::unicode_lower(input.order()[k])
                    == text::lower(input.order()[k])),
            forall|key: Seq<char>| #[trigger]
                out@.contains_key(key) ==> out@[key] > 0 && exists|name: Seq<char>| #[trigger]
                    input@.contains_key(name) && text::unicode_lower(name) == key && input@[name]
                        == out@[key],
        decreases n - i,
    {
        let limit: u32 = *input.value_at(i);
        if limit > 0 {
            let key = text::to_lowercase(input.key_at(i).as_str());
            proof {
                assert(input@.contains_key(input.order()[i as int]));
            }
            out.insert(key, limit);
        }
        i = i + 1;
    }
    proof {
        assert forall|name: Seq<char>| #[trigger]
            input@.contains_key(name) && input@[name] > 0 implies out@.contains_key(
            text::unicode_lower(name),
        ) && (text::is_ascii(name) ==> text::unicode_lower(name) == text::lower(name)) by {
            assert(input.order().to_set().contains(name));
            let k = choose|k: int| 0 <= k < input.order().len() && input.order()[k] == name;
            assert(input@[input.order()[k]] > 0);
        }
    }
    out
}

/// A number of the configuration: written as a number or as text.
#[derive(Debug)]
pub enum IntegerLike {
    Integer(i64),
    Text(String),
}

/// The number that a configured value stands for.
pub open spec fn integer_of(value: IntegerLike) -> Option<i64> {
    match value {
        IntegerLike::Integer(n) => Some(n),
        IntegerLike::Text(s) => match text::signed_value(text::trimmed(s@)) {
            Some(n) => if i64::MIN <= n <= i64::MAX {
                Some(n as i64)
            } else {
                None
            },
            None => None,
        },
    }
}

impl IntegerLike {
    /// The number that the value stands for.
    pub fn to_i64(&self) -> (r: Option<i64>)
        ensures
            r == integer_of(*self),
    {
        match self {
            IntegerLike::Integer(n) => Some(*n),
            IntegerLike::Text(s) => text::parse_i64(text::trim(s.as_str())),
        }
    }
}

/// The number that an optional configured value stands for.
pub open spec fn configured(value: Option<IntegerLike>) -> Option<i64> {
    match value {
        Some(v) => integer_of(v),
        None => None,
    }
}

fn configured_value(value: &Option<IntegerLike>) -> (r: Option<i64>)
    ensures
        r == configured(*value),
{
    match value {
        Some(v) => v.to_i64(),
        None => None,
    }
}

/// A number that is not negative, or the default.
pub fn parse_u64_or_default(value: &Option<IntegerLike>, default: u64) -> (r: u64)
    ensures
        r == match configured(*value) {
            Some(n) => if n >= 0 {
                n as u64
            } else {
                default
            },
            None => default,
        },
{
    match configured_value(value) {
        Some(n) => if n >= 0 {
            n as u64
        } else {
            default
        },
        None => default,
    }
}

/// A positive number, or the default.
pub fn parse_positive_u64_or_default(value: &Option<IntegerLike>, default: u64) -> (r: u64)
    ensures
        r == match configured(*value) {
            Some(n) => if n > 0 {
                n as u64
            } else {
                default
            },
            None => default,
        },
{
    match configured_value(value) {
        Some(n) => if n > 0 {
            n as u64
        } else {
            default
        },
        None => default,
    }
}

/// A number, or the default.
pub fn parse_i64_or_default(value: &Option<IntegerLike>, default: i64) -> (r: i64)
    ensures
        r == match configured(*value) {
            Some(n) => n,
            None => default,
        },
{
    match configured_value(value) {
        Some(n) => n,
        None => default,
    }
}

/// A positive number of 32 bits, or the default.
pub fn parse_u32_or_default(value: &Option<IntegerLike>, default: u32) -> (r: u32)
    ensures
        r == match configured(*value) {
            Some(n) => if 0 < n <= u32::MAX {
                n as u32
            } else {
                default
            },
            None => default,
        },
{
    match configured_value(value) {
        Some(n) => if n > 0 && n <= u32::MAX as i64 {
            n as u32
        } else {
            default
        },
        None => default,
    }
}

/// The time a hook may take: a positive number, or the default.
pub fn hook_timeout_or_default(value: &Option<IntegerLike>) -> (r: u64)
    ensures
        r == match configured(*value) {
            Some(n) => if n > 0 {
                n as u64
            } else {
                DEFAULT_HOOK_TIMEOUT_MS
            },
            None => DEFAULT_HOOK_TIMEOUT_MS,
        },
{
    let value: i64 = parse_i64_or_default(value, 60_000);
    if value > 0 {
        value as u64
    } else {
        DEFAULT_HOOK_TIMEOUT_MS
    }
}

/// The limit that a YAML value stands for: a whole number of 32 bits, or its decimal text.
pub open spec fn yaml_limit(value: YamlView) -> Option<u32> {
    match value {
        YamlView::Number(NumberView::Unsigned(n)) => if n <= u32::MAX {
            Some(n as u32)
        } else {
            None
        },
        YamlView::Text(s) => match text::unsigned_value(text::trimmed(s)) {
            Some(n) => if n <= u32::MAX {
                Some(n as u32)
            } else {
                None
            },
            None => None,
        },
        _ => None,
    }
}

/// The limit that a YAML value stands for.
pub fn parse_yaml_u32(value: &Yaml) -> (r: Option<u32>)
    ensures
        r == yaml_limit(value@),
{
    match value {
        Yaml::Number(Number::Unsigned(n)) => if *n <= u32::MAX as u64 {
            Some(*n as u32)
        } else {
            None
        },
        Yaml::Text(s) => text::parse_u32(text::trim(s.as_str())),
        _ => None,
    }
}

/// The positive limits of a list of entries, by state name in lower case. Where two names have the
/// same lower case, either limit may stay.
pub open spec fn limits_read(entries: Seq<(String, Yaml)>, out: Map<Seq<char>, u32>) -> bool {
    &&& forall|i: int| #![trigger entries[i]]
        0 <= i < entries.len() && (yaml_limit(entries[i].1@) matches Some(n) && n > 0)
            ==> out.contains_key(text::unicode_lower(entries[i].0@)) && (text::is_ascii(
            entries[i].0@,
        ) ==> text::unicode_lower(entries[i].0@) == text::lower(entries[i].0@))
    &&& forall|key: Seq<char>| #[trigger]
        out.contains_key(key) ==> out[key] > 0 && exists|i: int| #![trigger entries[i]]
            0 <= i < entries.len() && text::unicode_lower(entries[i].0@) == key && yaml_limit(
                entries[i].1@,
            ) == Some(out[key])
}

/// Reads the limits by state.
pub fn state_limit_map(entries: &[(String, Yaml)]) -> (r: TextMap<u32>)
    ensures
        limits_read(entries@, r@),
{
    let mut out: TextMap<u32> = TextMap::new();
    let mut i: usize = 0;
    while i < entries.len()
        invariant
            i <= entries@.len(),
            forall|k: int| #![trigger entries@[k]]
                0 <= k < i && (yaml_limit(entries@[k].1@) matches Some(n) && n > 0)
                    ==> out@.contains_key(text::unicode_lower(entries@[k].0@)) && (text::is_ascii(
                    entries@[k].0@,
                ) ==> text::unicode_lower(entries@[k].0@) == text::lower(entries@[k].0@)),
            forall|key: Seq<char>| #[trigger]
                out@.contains_key(key) ==> out@[key] > 0 && exists|k: int| #![trigger entries@[k]]
                    0 <= k < entries@.len() && text::unicode_lower(entries@[k].0@) == key
                        && yaml_limit(entries@[k].1@) == Some(out@[key]),
        decreases entries@.len() - i,
    {
        if let Some(limit) = parse_yaml_u32(&entries[i].1) {
            if limit > 0 {
                out.insert(text::to_lowercase(entries[i].0.as_str()), limit);
            }
        }
        i = i + 1;
    }
    out
}

/// A configured limit of a state with an ASCII name counts for every state of the same key.
pub proof fn lemma_limit_counts_for_its_state(
    entries: Seq<(String, Yaml)>,
    out: Map<Seq<char>, u32>,
    i: int,
    state: Seq<char>,
)
    requires
        limits_read(entries, out),
        0 <= i < entries.len(),
        yaml_limit(entries[i].1@) matches Some(n) && n > 0,
        text::is_ascii(entries[i].0@),
        text::trimmed(entries[i].0@) == entries[i].0@,
        text::state_key(state) == text::state_key(entries[i].0@),
    ensures
        out.contains_key(text::state_key(state)),
        out[text::state_key(state)] > 0,
{
}

impl Default for SymphonyConfig {
    fn default() -> (r: Self)
        ensures
            call_ensures(TrackerConfig::default, (), r.tracker),
            call_ensures(PollingConfig::default, (), r.polling),
            call_ensures(WorkspaceConfig::default, (), r.workspace),
            call_ensures(WorkerConfig::default, (), r.worker),
            call_ensures(HooksConfig::default, (), r.hooks),
            call_ensures(AgentConfig::default, (), r.agent),
            call_ensures(CodexConfig::default, (), r.codex),
            call_ensures(ServerConfig::default, (), r.server),
            call_ensures(ObservabilityConfig::default, (), r.observability),
    {
        SymphonyConfig {
            tracker: TrackerConfig::default(),
            polling: PollingConfig::default(),
            workspace: WorkspaceConfig::default(),
            worker: WorkerConfig::default(),
            hooks: HooksConfig::default(),
            agent: AgentConfig::default(),
            codex: CodexConfig::default(),
            server: ServerConfig::default(),
            observability: ObservabilityConfig::default(),
        }
    }
}

/// What is wrong with a configuration: the first of its faults, in a fixed order.
pub open spec fn config_fault(config: SymphonyConfig) -> Option<Seq<char>> {
    let kind = text::filled(text::opt_text(config.tracker.kind));
    if kind is None {
        Some("tracker.kind is required"@)
    } else if kind != Some("linear"@) && kind != Some("memory"@) {
        Some("tracker.kind must equal \"linear\" or \"memory\""@)
    } else if kind == Some("linear"@) && text::filled(text::opt_text(config.tracker.api_key))
        is None {
        Some("tracker.api_key is required"@)
    } else if kind == Some("linear"@) && text::filled(text::opt_text(config.tracker.project_slug))
        is None {
        Some("tracker.project_slug is required"@)
    } else if text::filled(text::opt_text(config.codex.command)) is None {
        Some("codex.command is required"@)
    } else {
        None
    }
}

/// The key that the tracker is called with: the configured one, else for Linear the variable
/// `LINEAR_API_KEY`.
pub open spec fn resolved_api_key(tracker: TrackerConfig, env: Map<Seq<char>, Seq<char>>) -> Option<
    Seq<char>,
> {
    let own = match text::opt_text(tracker.api_key) {
        Some(value) => resolved(value, env),
        None => None,
    };
    if own is Some {
        own
    } else if text::opt_text(tracker.kind) == Some("linear"@) {
        variable(env, "LINEAR_API_KEY"@)
    } else {
        None
    }
}

/// An optional text that is not blank.
pub open spec fn not_blank(value: Option<Seq<char>>) -> Option<Seq<char>> {
    match value {
        Some(s) => if text::blank(s) {
            None
        } else {
            Some(s)
        },
        None => None,
    }
}

/// The user whose issues are taken: the configured one, else for Linear the variable
/// `LINEAR_ASSIGNEE`.
pub open spec fn resolved_assignee(tracker: TrackerConfig, env: Map<Seq<char>, Seq<char>>) -> Option<
    Seq<char>,
> {
    let own = match text::opt_text(tracker.assignee) {
        Some(value) => not_blank(resolved(value, env)),
        None => None,
    };
    if own is Some {
        own
    } else if text::opt_text(tracker.kind) == Some("linear"@) {
        not_blank(variable(env, "LINEAR_ASSIGNEE"@))
    } else {
        None
    }
}

/// The directory of the workspaces, with its variable and its `~` resolved.
pub open spec fn resolved_root(root: Option<Seq<char>>, env: Map<Seq<char>, Seq<char>>) -> Option<
    Seq<char>,
> {
    match root {
        Some(value) => match resolved(value, env) {
            Some(path) => Some(expanded(path, env)),
            None => None,
        },
        None => None,
    }
}

fn keep_filled(value: Option<String>) -> (r: Option<String>)
    ensures
        text::opt_text(r) == not_blank(text::opt_text(value)),
{
    match value {
        Some(s) => if text::is_blank(s.as_str()) {
            None
        } else {
            Some(s)
        },
        None => None,
    }
}

fn is_linear(kind: &Option<String>) -> (r: bool)
    ensures
        r == (text::opt_text(*kind) == Some("linear"@)),
{
    match kind {
        Some(kind) => text::same(kind.as_str(), "linear"),
        None => false,
    }
}

/// One configuration is another one with the values that come from the environment resolved, the
/// limits by state folded, and a stall timeout that is set for polling alone taken over by the
/// coding agent. Everything else is the same.
pub open spec fn runtime_resolved(
    before: SymphonyConfig,
    after: SymphonyConfig,
    env: Map<Seq<char>, Seq<char>>,
    polling_stall_timeout_set: bool,
    codex_stall_timeout_set: bool,
) -> bool {
    &&& text::opt_text(after.tracker.api_key) == resolved_api_key(before.tracker, env)
    &&& text::opt_text(after.tracker.assignee) == resolved_assignee(before.tracker, env)
    &&& text::opt_text(after.workspace.root) == resolved_root(
        text::opt_text(before.workspace.root),
        env,
    )
    &&& limits_folded(
        before.agent.max_concurrent_agents_by_state@,
        after.agent.max_concurrent_agents_by_state@,
    )
    &&& after.codex.stall_timeout_ms == (if polling_stall_timeout_set && !codex_stall_timeout_set {
        Some(before.polling.stall_timeout_ms)
    } else {
        before.codex.stall_timeout_ms
    })
    &&& after == (SymphonyConfig {
        tracker: TrackerConfig {
            api_key: after.tracker.api_key,
            assignee: after.tracker.assignee,
            ..before.tracker
        },
        workspace: WorkspaceConfig { root: after.workspace.root },
        agent: AgentConfig {
            max_concurrent_agents_by_state: after.agent.max_concurrent_agents_by_state,
            ..before.agent
        },
        codex: CodexConfig { stall_timeout_ms: after.codex.stall_timeout_ms, ..before.codex },
        ..before
    })
}

impl SymphonyConfig {
    /// Checks the configuration. It is valid when it has no fault; otherwise the error names the
    /// first fault.
    pub fn validate(&self) -> (r: Result<(), SymphonyError>)
        ensures
            match config_fault(*self) {
                Some(fault) => r matches Err(e) && e@ == ErrorView::ConfigValidation(fault),
                None => r is Ok,
            },
    {
        let kind = match text::filled_value(&self.tracker.kind) {
            Some(kind) => kind,
            None => {
                return Err(SymphonyError::ConfigValidation("tracker.kind is required".to_owned()));
            },
        };
        let linear = text::same(kind, "linear");
        if !linear && !text::same(kind, "memory") {
            return Err(
                SymphonyError::ConfigValidation(
                    "tracker.kind must equal \"linear\" or \"memory\"".to_owned(),
                ),
            );
        }
        if linear {
            if text::filled_value(&self.tracker.api_key).is_none() {
                return Err(
                    SymphonyError::ConfigValidation("tracker.api_key is required".to_owned()),
                );
            }
            if text::filled_value(&self.tracker.project_slug).is_none() {
                return Err(
                    SymphonyError::ConfigValidation("tracker.project_slug is required".to_owned()),
                );
            }
        }
        if text::filled_value(&self.codex.command).is_none() {
            return Err(SymphonyError::ConfigValidation("codex.command is required".to_owned()));
        }
        Ok(())
    }

    /// The configuration of a front matter, given what reading its fields gave: the fields, or why
    /// they cannot be read.
    pub fn from_yaml_value(
        value: &Yaml,
        fields: Result<SymphonyConfig, String>,
        env: &Environment,
    ) -> (r: Result<SymphonyConfig, SymphonyError>)
        ensures
            match fields {
                Err(message) => r matches Err(e) && e@ == ErrorView::ConfigParse(message@),
                Ok(before) => r matches Ok(config) && runtime_resolved(
                    before,
                    config,
                    env.vars@,
                    yaml_path(
                        value@,
                        Seq::empty().push("polling"@).push("stall_timeout_ms"@),
                    ),
                    yaml_path(value@, Seq::empty().push("codex"@).push("stall_timeout_ms"@)),
                ),
            },
    {
        let polling = ["polling", "stall_timeout_ms"];
        let codex = ["codex", "stall_timeout_ms"];
        let polling_set = yaml_path_exists(value, &polling);
        let codex_set = yaml_path_exists(value, &codex);
        proof {
            assert(Seq::new(polling@.len(), |i: int| polling@[i]@) =~= Seq::empty().push(
                "polling"@,
            ).push("stall_timeout_ms"@));
            assert(Seq::new(codex@.len(), |i: int| codex@[i]@) =~= Seq::empty().push(
                "codex"@,
            ).push("stall_timeout_ms"@));
        }
        match fields {
            Ok(before) => {
                let mut config = before;
                config.resolve_runtime_values(env, polling_set, codex_set);
                Ok(config)
            },
            Err(message) => Err(SymphonyError::ConfigParse(message)),
        }
    }

    /// Resolves the values that come from the environment, folds the limits by state, and lets a
    /// stall timeout that is set for polling alone hold for the coding agent too. Everything else
    /// stays as it is.
    pub fn resolve_runtime_values(
        &mut self,
        env: &Environment,
        polling_stall_timeout_set: bool,
        codex_stall_timeout_set: bool,
    )
        ensures
            runtime_resolved(
                *old(self),
                *final(self),
                env.vars@,
                polling_stall_timeout_set,
                codex_stall_timeout_set,
            ),
    {
        let linear = is_linear(&self.tracker.kind);
        let own_key = match &self.tracker.api_key {
            Some(value) => resolve_env_var(value.as_str(), env),
            None => None,
        };
        let api_key = match own_key {
            Some(key) => Some(key),
            None => if linear {
                env.variable("LINEAR_API_KEY")
            } else {
                None
            },
        };
        let own_assignee = match &self.tracker.assignee {
            Some(value) => keep_filled(resolve_env_var(value.as_str(), env)),
            None => None,
        };
        let assignee = match own_assignee {
            Some(user) => Some(user),
            None => if linear {
                keep_filled(env.variable("LINEAR_ASSIGNEE"))
            } else {
                None
            },
        };
        let root = match &self.workspace.root {
            Some(value) => match resolve_env_var(value.as_str(), env) {
                Some(path) => Some(expand_tilde(path.as_str(), env)),
                None => None,
            },
            None => None,
        };
        let limits = normalize_state_limit_map(&self.agent.max_concurrent_agents_by_state);
        self.tracker.api_key = api_key;
        self.tracker.assignee = assignee;
        self.workspace.root = root;
        self.agent.max_concurrent_agents_by_state = limits;
        if polling_stall_timeout_set && !codex_stall_timeout_set {
            self.codex.stall_timeout_ms = Some(self.polling.stall_timeout_ms);
        }
    }
}

/// The value that a mapping holds under a text key. A tag on the mapping is looked through.
pub open spec fn yaml_entry(value: YamlView, key: Seq<char>) -> Option<YamlView>
    decreases value,
{
    match value {
        YamlView::Mapping(entries) => entry_from(entries, 0, key),
        YamlView::Tagged(_, inner) => yaml_entry(*inner, key),
        _ => None,
    }
}

/// The value of the first entry from position `i` on whose key is the given text.
pub open spec fn entry_from(entries: Seq<(YamlView, YamlView)>, i: int, key: Seq<char>) -> Option<
    YamlView,
>
    decreases entries.len() - i,
{
    if i < 0 || i >= entries.len() {
        None
    } else if entries[i].0 == YamlView::Text(key) {
        Some(entries[i].1)
    } else {
        entry_from(entries, i + 1, key)
    }
}

/// A path of keys leads to a value.
pub open spec fn yaml_path(value: YamlView, path: Seq<Seq<char>>) -> bool
    decreases path.len(),
{
    if path.len() == 0 {
        true
    } else {
        match yaml_entry(value, path[0]) {
            Some(next) => yaml_path(next, path.subrange(1, path.len() as int)),
            None => false,
        }
    }
}

fn find_entry<'a>(value: &'a Yaml, key: &str) -> (r: Option<&'a Yaml>)
    ensures
        match r {
            Some(found) => yaml_entry(value@, key@) == Some(found@),
            None => yaml_entry(value@, key@) is None,
        },
    decreases value,
{
    match value {
        Yaml::Mapping(entries) => {
            let ghost view = value@->Mapping_0;
            let mut i: usize = 0;
            while i < entries.len()
                invariant
                    i <= entries@.len(),
                    *value == Yaml::Mapping(*entries),
                    view == value@->Mapping_0,
                    entry_from(view, 0, key@) == entry_from(view, i as int, key@),
                decreases entries@.len() - i,
            {
                proof {
                    assert(view[i as int] == (entries@[i as int].0@, entries@[i as int].1@));
                }
                if let Yaml::Text(name) = &entries[i].0 {
                    if text::same(name.as_str(), key) {
                        return Some(&entries[i].1);
                    }
                }
                i = i + 1;
            }
            None
        },
        Yaml::Tagged(_, inner) => find_entry(inner, key),
        _ => None,
    }
}

/// Tells whether a path of keys leads to a value.
pub fn yaml_path_exists(value: &Yaml, path: &[&str]) -> (r: bool)
    ensures
        r == yaml_path(value@, Seq::new(path@.len(), |i: int| path@[i]@)),
{
    let ghost keys = Seq::new(path@.len(), |i: int| path@[i]@);
    let mut current: &Yaml = value;
    let mut i: usize = 0;
    proof {
        assert(keys.subrange(0, keys.len() as int) =~= keys);
    }
    while i < path.len()
        invariant
            i <= path@.len(),
            keys == Seq::new(path@.len(), |k: int| path@[k]@),
            yaml_path(value@, keys) == yaml_path(
                current@,
                keys.subrange(i as int, keys.len() as int),
            ),
        decreases path@.len() - i,
    {
        proof {
            let rest = keys.subrange(i as int, keys.len() as int);
            assert(rest[0] == path@[i as int]@);
            assert(rest.subrange(1, rest.len() as int) =~= keys.subrange(
                i + 1,
                keys.len() as int,
            ));
        }
        match find_entry(current, path[i]) {
            Some(next) => {
                current = next;
            },
            None => {
                return false;
            },
        }
        i = i + 1;
    }
    true
}

/// The text of a number.
pub open spec fn number_text(n: NumberView) -> Seq<char> {
    match n {
        NumberView::Unsigned(n) => text::decimal(n as nat),
        NumberView::Negative(n) => text::signed_decimal(n as int),
        NumberView::Float(s) => s,
    }
}

fn show_number(n: &Number) -> (r: String)
    ensures
        r@ == number_text(n@),
{
    match n {
        Number::Unsigned(n) => text::u64_text(*n),
        Number::Negative(n) => text::i64_text(*n),
        Number::Float(s) => s.clone(),
    }
}

/// The text of a mapping key.
pub open spec fn key_text(key: YamlView) -> Seq<char> {
    match key {
        YamlView::Null => "null"@,
        YamlView::Bool(b) => if b {
            "true"@
        } else {
            "false"@
        },
        YamlView::Number(n) => number_text(n),
        YamlView::Text(s) => s,
        _ => text::trimmed(yaml::yaml_text(key)),
    }
}

/// The text of a mapping key.
pub fn yaml_key_to_string(value: &Yaml) -> (r: String)
    ensures
        r@ == key_text(value@),
{
    match value {
        Yaml::Null => "null".to_owned(),
        Yaml::Bool(b) => if *b {
            "true".to_owned()
        } else {
            "false".to_owned()
        },
        Yaml::Number(n) => show_number(n),
        Yaml::Text(s) => s.clone(),
        _ => text::trim(yaml::to_text(value).as_str()).to_owned(),
    }
}

/// The JSON number of a YAML number. JSON has no infinities and no not-a-number.
pub open spec fn json_number(n: NumberView) -> JsonView {
    match n {
        NumberView::Float(s) => if s == ".inf"@ || s == "-.inf"@ || s == ".nan"@ {
            JsonView::Null
        } else {
            JsonView::Number(n)
        },
        _ => JsonView::Number(n),
    }
}

/// The JSON value of a YAML value. Tags are dropped, and where two keys have the same text the
/// later entry stays.
pub open spec fn yaml_json(value: YamlView) -> JsonView
    decreases value,
{
    match value {
        YamlView::Null => JsonView::Null,
        YamlView::Bool(b) => JsonView::Bool(b),
        YamlView::Number(n) => json_number(n),
        YamlView::Text(s) => JsonView::Text(s),
        YamlView::Sequence(items) => JsonView::Array(
            Seq::new(
                items.len(),
                |i: int|
                    if 0 <= i < items.len() {
                        yaml_json(items[i])
                    } else {
                        JsonView::Null
                    },
            ),
        ),
        YamlView::Mapping(entries) => JsonView::Object(entries_json(entry_members(entries))),
        YamlView::Tagged(_, inner) => yaml_json(*inner),
    }
}

/// The members that the entries of a mapping stand for, one for each entry.
pub open spec fn entry_members(entries: Seq<(YamlView, YamlView)>) -> Seq<(Seq<char>, JsonView)>
    decreases entries,
{
    Seq::new(
        entries.len(),
        |i: int|
            if 0 <= i < entries.len() {
                (key_text(entries[i].0), yaml_json(entries[i].1))
            } else {
                (Seq::empty(), JsonView::Null)
            },
    )
}

/// The object that results from setting members one after the other.
pub open spec fn entries_json(entries: Seq<(Seq<char>, JsonView)>) -> Seq<(Seq<char>, JsonView)>
    decreases entries.len(),
{
    if entries.len() == 0 {
        Seq::empty()
    } else {
        json::with_member(entries_json(entries.drop_last()), entries.last().0, entries.last().1)
    }
}

/// The JSON value of a YAML value.
pub fn yaml_to_json_value(value: &Yaml) -> (r: Json)
    ensures
        r@ == yaml_json(value@),
    decreases value,
{
    match value {
        Yaml::Null => Json::Null,
        Yaml::Bool(b) => Json::Bool(*b),
        Yaml::Number(n) => {
            if let Number::Float(s) = n {
                if text::same(s.as_str(), ".inf") || text::same(s.as_str(), "-.inf") || text::same(
                    s.as_str(),
                    ".nan",
                ) {
                    return Json::Null;
                }
            }
            Json::Number(n.clone())
        },
        Yaml::Text(s) => Json::Text(s.clone()),
        Yaml::Sequence(items) => {
            let mut out: Vec<Json> = Vec::new();
            let mut i: usize = 0;
            while i < items.len()
                invariant
                    i <= items@.len(),
                    *value == Yaml::Sequence(*items),
                    out@.len() == i,
                    forall|k: int| 0 <= k < i ==> (#[trigger] out@[k])@ == yaml_json(items@[k]@),
                decreases items@.len() - i,
            {
                proof {
                    assert(decreases_to!(*value => value->Sequence_0));
                    assert(decreases_to!(items@ => items@[i as int]));
                }
                out.push(yaml_to_json_value(&items[i]));
                i = i + 1;
            }
            let r = Json::Array(out);
            proof {
                json::lemma_json_view(r);
                assert(r@->Array_0 =~= yaml_json(value@)->Array_0);
            }
            r
        },
        Yaml::Mapping(entries) => {
            let ghost view = value@->Mapping_0;
            let ghost flat = entry_members(view);
            let mut out: Vec<(String, Json)> = Vec::new();
            let mut i: usize = 0;
            proof {
                assert(json::members_view(out@) =~= entries_json(flat.take(0)));
            }
            while i < entries.len()
                invariant
                    i <= entries@.len(),
                    *value == Yaml::Mapping(*entries),
                    view == value@->Mapping_0,
                    flat.len() == view.len(),
                    forall|k: int|
                        0 <= k < view.len() ==> #[trigger] flat[k] == (
                            key_text(view[k].0),
                            yaml_json(view[k].1),
                        ),
                    json::members_view(out@) == entries_json(flat.take(i as int)),
                decreases entries@.len() - i,
            {
                proof {
                    assert(decreases_to!(*value => value->Mapping_0));
                    assert(decreases_to!(entries@ => entries@[i as int]));
                    assert(view[i as int] == (entries@[i as int].0@, entries@[i as int].1@));
                    assert(flat.take(i + 1).drop_last() =~= flat.take(i as int));
                    assert(flat.take(i + 1).last() == flat[i as int]);
                }
                let member = yaml_to_json_value(&entries[i].1);
                json::set_member(&mut out, yaml_key_to_string(&entries[i].0), member);
                i = i + 1;
            }
            let r = Json::Object(out);
            proof {
                assert(flat.take(flat.len() as int) =~= flat);
                json::lemma_json_view(r);
            }
            r
        },
        Yaml::Tagged(_, inner) => yaml_to_json_value(inner),
    }
}

/// `$NAME` stands for what the variable `NAME` holds, and for nothing where it is empty or not set;
/// any other value stands for itself.
pub proof fn lemma_dollar_names_a_variable(
    name: Seq<char>,
    value: Seq<char>,
    env: Map<Seq<char>, Seq<char>>,
)
    ensures
        env.contains_key(name) && env[name].len() > 0 ==> resolved(seq!['$'] + name, env) == Some(
            env[name],
        ),
        !env.contains_key(name) || env[name].len() == 0 ==> resolved(seq!['$'] + name, env) is None,
        value.len() == 0 || value[0] != '$' ==> resolved(value, env) == Some(value),
{
    let whole = seq!['$'] + name;
    assert(whole.subrange(1, whole.len() as int) =~= name);
}

/// A leading `~` stands for `HOME`, or else for `USERPROFILE`, and for itself where neither is set;
/// any other path is kept.
pub proof fn lemma_tilde_is_home(
    rest: Seq<char>,
    path: Seq<char>,
    env: Map<Seq<char>, Seq<char>>,
)
    ensures
        ({
            let has_home = env.contains_key("HOME"@) && env["HOME"@].len() > 0;
            let has_profile = env.contains_key("USERPROFILE"@) && env["USERPROFILE"@].len() > 0;
            &&& has_home ==> expanded(seq!['~'] + rest, env) == env["HOME"@] + rest
            &&& !has_home && has_profile ==> expanded(seq!['~'] + rest, env)
                == env["USERPROFILE"@] + rest
            &&& !has_home && !has_profile ==> expanded(seq!['~'] + rest, env) == seq!['~'] + rest
            &&& path.len() == 0 || path[0] != '~' ==> expanded(path, env) == path
        }),
{
    let whole = seq!['~'] + rest;
    assert(whole.subrange(1, whole.len() as int) =~= rest);
}

/// The key of the tracker is the configured one; without one Linear takes it from the environment,
/// and no other tracker does.
pub proof fn lemma_api_key_is_found(
    tracker: TrackerConfig,
    env: Map<Seq<char>, Seq<char>>,
    key: Seq<char>,
)
    ensures
        ({
            let found = resolved_api_key(tracker, env);
            let linear = tracker.kind is Some && tracker.kind->0@ == "linear"@;
            let has_own = tracker.api_key is Some && resolved(tracker.api_key->0@, env) is Some;
            let has_variable = env.contains_key("LINEAR_API_KEY"@) && env["LINEAR_API_KEY"@].len()
                > 0;
            &&& tracker.api_key is Some && resolved(tracker.api_key->0@, env) == Some(key) ==> found
                == Some(key)
            &&& !has_own && linear && has_variable ==> found == Some(env["LINEAR_API_KEY"@])
            &&& !has_own && linear && !has_variable ==> found is None
            &&& !has_own && !linear ==> found is None
        }),
{
}

/// The user whose issues are taken is the configured one if that is not blank; without one Linear
/// takes it from the environment, and no other tracker does.
pub proof fn lemma_assignee_is_found(
    tracker: TrackerConfig,
    env: Map<Seq<char>, Seq<char>>,
    user: Seq<char>,
)
    ensures
        ({
            let found = resolved_assignee(tracker, env);
            let linear = tracker.kind is Some && tracker.kind->0@ == "linear"@;
            let named = env.contains_key("LINEAR_ASSIGNEE"@) && text::trimmed(
                env["LINEAR_ASSIGNEE"@],
            ).len() > 0;
            &&& tracker.assignee is Some && resolved(tracker.assignee->0@, env) == Some(user)
                && text::trimmed(user).len() > 0 ==> found == Some(user)
            &&& tracker.assignee is None && linear && named ==> found == Some(
                env["LINEAR_ASSIGNEE"@],
            )
            &&& tracker.assignee is None && linear && !named ==> found is None
            &&& tracker.assignee is None && !linear ==> found is None
        }),
{
    text::lemma_trimmed_empty(user);
    text::lemma_trimmed_empty(env["LINEAR_ASSIGNEE"@]);
}

/// The directory of the workspaces is the configured one, its variable read first and its `~` then.
pub proof fn lemma_root_is_found(root: Seq<char>, env: Map<Seq<char>, Seq<char>>, path: Seq<char>)
    ensures
        resolved_root(None, env) is None,
        resolved(root, env) == Some(path) ==> resolved_root(Some(root), env) == Some(
            expanded(path, env),
        ),
        resolved(root, env) is None ==> resolved_root(Some(root), env) is None,
{
}

/// A configuration is valid exactly if it names a tracker that there is, has what Linear needs where
/// that is the tracker, and has a command.
pub proof fn lemma_valid_config_is_complete(config: SymphonyConfig)
    ensures
        ({
            let kind = text::trimmed(config.tracker.kind->0@);
            let has_kind = config.tracker.kind is Some && kind.len() > 0;
            let has_key = config.tracker.api_key is Some && text::trimmed(
                config.tracker.api_key->0@,
            ).len() > 0;
            let has_slug = config.tracker.project_slug is Some && text::trimmed(
                config.tracker.project_slug->0@,
            ).len() > 0;
            let has_command = config.codex.command is Some && text::trimmed(
                config.codex.command->0@,
            ).len() > 0;
            &&& config_fault(config) is None <==> has_kind && has_command && (kind == "memory"@ || (
            kind == "linear"@ && has_key && has_slug))
            &&& !has_kind ==> config_fault(config) == Some("tracker.kind is required"@)
            &&& has_kind && kind == "linear"@ && !has_key ==> config_fault(config) == Some(
                "tracker.api_key is required"@,
            )
            &&& has_kind && kind == "linear"@ && has_key && !has_slug ==> config_fault(config)
                == Some("tracker.project_slug is required"@)
            &&& has_kind && kind == "memory"@ && !has_command ==> config_fault(config) == Some(
                "codex.command is required"@,
            )
            &&& has_kind && kind == "linear"@ && has_key && has_slug && !has_command
                ==> config_fault(config) == Some("codex.command is required"@)
            &&& has_kind && kind != "linear"@ && kind != "memory"@ ==> config_fault(config) == Some(
                "tracker.kind must equal \"linear\" or \"memory\""@,
            )
        }),
{
    text::lemma_trimmed_empty(config.tracker.kind->0@);
    text::lemma_trimmed_empty(config.tracker.api_key->0@);
    text::lemma_trimmed_empty(config.tracker.project_slug->0@);
    text::lemma_trimmed_empty(config.codex.command->0@);
    reveal_strlit("linear");
    reveal_strlit("memory");
    assert("linear"@.len() == 6);
    assert("memory"@.len() == 6);
    assert("linear"@[0] == 'l');
    assert("memory"@[0] == 'm');
}

/// A number is read from itself and from its decimal notation, white space around it or not, and from
/// no other text.
pub proof fn lemma_number_is_read(n: i64, s: String)
    ensures
        integer_of(IntegerLike::Integer(n)) == Some(n),
        text::trimmed(s@) == text::signed_decimal(n as int) ==> integer_of(IntegerLike::Text(s))
            == Some(n),
        text::signed_value(text::trimmed(s@)) is None ==> integer_of(IntegerLike::Text(s)) is None,
        configured(Some(IntegerLike::Integer(n))) == Some(n),
        configured(Some(IntegerLike::Text(s))) == integer_of(IntegerLike::Text(s)),
        configured(None) is None,
{
    text::lemma_signed_decimal_reads_back(n as int);
}

/// A limit is read from a whole number and from its decimal notation, where it fits.
pub proof fn lemma_limit_is_read(n: u64, s: Seq<char>, value: YamlView)
    ensures
        n <= u32::MAX ==> yaml_limit(YamlView::Number(NumberView::Unsigned(n))) == Some(n as u32),
        n > u32::MAX ==> yaml_limit(YamlView::Number(NumberView::Unsigned(n))) is None,
        n <= u32::MAX && text::trimmed(s) == text::decimal(n as nat) ==> yaml_limit(
            YamlView::Text(s),
        ) == Some(n as u32),
        text::unsigned_value(text::trimmed(s)) is None ==> yaml_limit(YamlView::Text(s)) is None,
        !(value is Number) && !(value is Text) ==> yaml_limit(value) is None,
{
    text::lemma_decimal_reads_back(n as nat);
}

/// Limits that are folded keep each positive limit of an ASCII name under its lower case, and have no
/// limit that was not given.
pub proof fn lemma_folded_limits(
    input: Map<Seq<char>, u32>,
    out: Map<Seq<char>, u32>,
    name: Seq<char>,
    key: Seq<char>,
)
    requires
        limits_folded(input, out),
    ensures
        input.contains_key(name) && input[name] > 0 && text::is_ascii(name) ==> out.contains_key(
            text::lower(name),
        ),
        out.contains_key(key) ==> out[key] > 0,
        out.contains_key(key) ==> exists|given: Seq<char>| #[trigger]
            input.contains_key(given) && input[given] == out[key] && text::unicode_lower(given)
                == key,
{
}

/// Limits that are read are the positive ones of the entries, each for its name in lower case.
pub proof fn lemma_read_limits(
    entries: Seq<(String, Yaml)>,
    out: Map<Seq<char>, u32>,
    i: int,
    key: Seq<char>,
    limit: u32,
)
    requires
        limits_read(entries, out),
        0 <= i < entries.len(),
    ensures
        yaml_limit(entries[i].1@) == Some(limit) && limit > 0 && text::is_ascii(entries[i].0@)
            ==> out.contains_key(text::lower(entries[i].0@)),
        out.contains_key(key) ==> out[key] > 0,
        out.contains_key(key) ==> exists|k: int|
            0 <= k < entries.len() && yaml_limit((#[trigger] entries[k]).1@) == Some(out[key])
                && text::unicode_lower(entries[k].0@) == key,
{
}

/// Resolving a configuration changes the key, the user, the root, the limits by state and the stall
/// timeout, and nothing else. A stall timeout that is set for polling alone holds for the agent too.
pub proof fn lemma_resolving_keeps_the_rest(
    before: SymphonyConfig,
    after: SymphonyConfig,
    env: Map<Seq<char>, Seq<char>>,
    polling_set: bool,
    codex_set: bool,
)
    requires
        runtime_resolved(before, after, env, polling_set, codex_set),
    ensures
        after.tracker.kind == before.tracker.kind,
        after.tracker.endpoint == before.tracker.endpoint,
        after.tracker.project_slug == before.tracker.project_slug,
        after.tracker.active_states == before.tracker.active_states,
        after.tracker.terminal_states == before.tracker.terminal_states,
        after.polling == before.polling,
        after.worker == before.worker,
        after.hooks == before.hooks,
        after.agent.max_concurrent_agents == before.agent.max_concurrent_agents,
        after.agent.max_turns == before.agent.max_turns,
        after.agent.max_retry_backoff_ms == before.agent.max_retry_backoff_ms,
        after.codex.command == before.codex.command,
        after.codex.turn_timeout_ms == before.codex.turn_timeout_ms,
        after.codex.read_timeout_ms == before.codex.read_timeout_ms,
        after.codex.approval_policy == before.codex.approval_policy,
        after.codex.sandbox == before.codex.sandbox,
        after.codex.thread_sandbox == before.codex.thread_sandbox,
        after.codex.turn_sandbox_policy == before.codex.turn_sandbox_policy,
        after.server == before.server,
        after.observability == before.observability,
        polling_set && !codex_set ==> after.codex.stall_timeout_ms == Some(
            before.polling.stall_timeout_ms,
        ),
        !polling_set || codex_set ==> after.codex.stall_timeout_ms == before.codex.stall_timeout_ms,
        text::opt_text(after.tracker.api_key) == resolved_api_key(before.tracker, env),
        text::opt_text(after.tracker.assignee) == resolved_assignee(before.tracker, env),
        before.workspace.root is Some ==> text::opt_text(after.workspace.root) == resolved_root(
            Some(before.workspace.root->0@),
            env,
        ),
        before.workspace.root is None ==> after.workspace.root is None,
        limits_folded(
            before.agent.max_concurrent_agents_by_state@,
            after.agent.max_concurrent_agents_by_state@,
        ),
{
}

/// An entry of a mapping is found by its key, and the first of several is.
pub proof fn lemma_entry_is_found(
    entries: Seq<(YamlView, YamlView)>,
    from: int,
    key: Seq<char>,
    k: int,
)
    requires
        0 <= from <= k < entries.len(),
        entries[k].0 == YamlView::Text(key),
        forall|i: int| from <= i < k ==> (#[trigger] entries[i]).0 != YamlView::Text(key),
    ensures
        entry_from(entries, from, key) == Some(entries[k].1),
        from == 0 ==> yaml_entry(YamlView::Mapping(entries), key) == Some(entries[k].1),
    decreases k - from,
{
    if from < k {
        lemma_entry_is_found(entries, from + 1, key, k);
    }
}

/// A key that no entry has is not found.
pub proof fn lemma_no_entry_is_found(
    entries: Seq<(YamlView, YamlView)>,
    from: int,
    key: Seq<char>,
)
    requires
        0 <= from,
        forall|i: int| 0 <= i < entries.len() ==> (#[trigger] entries[i]).0 != YamlView::Text(key),
    ensures
        entry_from(entries, from, key) is None,
        from == 0 ==> yaml_entry(YamlView::Mapping(entries), key) is None,
    decreases entries.len() - from,
{
    if from < entries.len() {
        lemma_no_entry_is_found(entries, from + 1, key);
    }
}

/// A path of two keys leads to a value where the first key has a value that has the second.
pub proof fn lemma_path_of_two_keys(
    value: YamlView,
    first: Seq<char>,
    second: Seq<char>,
    section: YamlView,
)
    ensures
        yaml_entry(value, first) is None ==> !yaml_path(
            value,
            Seq::empty().push(first).push(second),
        ),
        yaml_entry(value, first) == Some(section) ==> (yaml_path(
            value,
            Seq::empty().push(first).push(second),
        ) <==> yaml_entry(section, second) is Some),
{
    let path = Seq::<Seq<char>>::empty().push(first).push(second);
    let rest = path.subrange(1, path.len() as int);
    assert(rest =~= Seq::<Seq<char>>::empty().push(second));
    assert(rest.subrange(1, rest.len() as int) =~= Seq::<Seq<char>>::empty());
    reveal_with_fuel(yaml_path, 3);
}

/// The text of a key is the key where that is a text, and else how it is written.
pub proof fn lemma_key_is_written(s: Seq<char>, n: u64, m: i64)
    ensures
        key_text(YamlView::Text(s)) == s,
        key_text(YamlView::Null) == "null"@,
        key_text(YamlView::Bool(true)) == "true"@,
        key_text(YamlView::Bool(false)) == "false"@,
        key_text(YamlView::Number(NumberView::Unsigned(n))) == text::decimal(n as nat),
        key_text(YamlView::Number(NumberView::Negative(m))) == text::signed_decimal(m as int),
        key_text(YamlView::Number(NumberView::Float(s))) == s,
{
}

/// The JSON value of a YAML value is of the same kind and has the same data; a list keeps its order,
/// and a tag is dropped.
pub proof fn lemma_yaml_becomes_json(
    s: Seq<char>,
    b: bool,
    n: u64,
    m: i64,
    items: Seq<YamlView>,
    inner: YamlView,
    i: int,
)
    ensures
        yaml_json(YamlView::Null) is Null,
        yaml_json(YamlView::Bool(b)) == JsonView::Bool(b),
        yaml_json(YamlView::Text(s)) == JsonView::Text(s),
        yaml_json(YamlView::Number(NumberView::Unsigned(n))) == JsonView::Number(
            NumberView::Unsigned(n),
        ),
        yaml_json(YamlView::Number(NumberView::Negative(m))) == JsonView::Number(
            NumberView::Negative(m),
        ),
        s != ".inf"@ && s != "-.inf"@ && s != ".nan"@ ==> yaml_json(
            YamlView::Number(NumberView::Float(s)),
        ) == JsonView::Number(NumberView::Float(s)),
        s == ".inf"@ || s == "-.inf"@ || s == ".nan"@ ==> yaml_json(
            YamlView::Number(NumberView::Float(s)),
        ) is Null,
        yaml_json(YamlView::Tagged(s, Box::new(inner))) == yaml_json(inner),
        yaml_json(YamlView::Sequence(items)) is Array,
        yaml_json(YamlView::Sequence(items))->Array_0.len() == items.len(),
        0 <= i < items.len() ==> yaml_json(YamlView::Sequence(items))->Array_0[i] == yaml_json(
            items[i],
        ),
{
    reveal_with_fuel(yaml_json, 2);
}

proof fn lemma_last_member_stays(members: Seq<(Seq<char>, JsonView)>, i: int)
    requires
        0 <= i < members.len(),
        forall|k: int| i < k < members.len() ==> (#[trigger] members[k]).0 != members[i].0,
    ensures
        json::member(JsonView::Object(entries_json(members)), members[i].0) == Some(members[i].1),
    decreases members.len(),
{
    let front = members.drop_last();
    let last = members.last();
    if i < members.len() - 1 {
        assert(front[i] == members[i]);
        assert(members[members.len() - 1] == last);
        assert forall|k: int| i < k < front.len() implies (#[trigger] front[k]).0 != front[i].0 by {
            assert(front[k] == members[k]);
        }
        lemma_last_member_stays(front, i);
        json::lemma_set_member_is_found(entries_json(front), last.0, last.1, members[i].0);
    } else {
        let other = last.0.push('!');
        assert(other.len() != last.0.len());
        json::lemma_set_member_is_found(entries_json(front), last.0, last.1, other);
    }
}

/// An entry of a mapping is a member of the object, under the text of its key; of several entries with
/// the same text the last one is.
pub proof fn lemma_mapping_becomes_object(entries: Seq<(YamlView, YamlView)>, i: int)
    requires
        0 <= i < entries.len(),
        forall|k: int|
            i < k < entries.len() ==> key_text((#[trigger] entries[k]).0) != key_text(entries[i].0),
    ensures
        yaml_json(YamlView::Mapping(entries)) is Object,
        json::member(yaml_json(YamlView::Mapping(entries)), key_text(entries[i].0)) == Some(
            yaml_json(entries[i].1),
        ),
{
    let members = entry_members(entries);
    assert forall|k: int| i < k < members.len() implies (#[trigger] members[k]).0 != members[i].0 by {
        assert(key_text(entries[k].0) != key_text(entries[i].0));
    }
    lemma_last_member_stays(members, i);
}

/// A tag on a section is looked through, and a value that is no mapping has no entries.
pub proof fn lemma_tag_is_looked_through(tag: Seq<char>, inner: YamlView, key: Seq<char>)
    ensures
        yaml_entry(YamlView::Tagged(tag, Box::new(inner)), key) == yaml_entry(inner, key),
        !(inner is Mapping) && !(inner is Tagged) ==> yaml_entry(inner, key) is None,
{
    reveal_with_fuel(yaml_entry, 2);
}

} // verus!
