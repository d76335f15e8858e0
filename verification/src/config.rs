//! Settings of the agent service, with their defaults.
use vstd::prelude::*;

use crate::text::{nat_decimal, push_str, to_owned_string, u64_to_decimal};

verus! {

/// The whole configuration.
#[derive(Debug)]
pub struct Config {
    pub ai: AIConfig,
    pub tools: ToolConfig,
    pub agent: AgentConfig,
    pub telegram: TelegramConfig,
    pub restate: RestateConfig,
    pub memory: MemoryConfig,
    pub telemetry: TelemetryConfig,
}

/// Which provider API a model is reached through.
#[derive(Debug, Clone, Copy, PartialEq, Eq, Structural)]
pub enum ProviderType {
    OpenAI,
    OpenRouter,
}

impl Default for ProviderType {
    fn default() -> (res: Self)
        ensures
            res == ProviderType::OpenAI,
    {
        ProviderType::OpenAI
    }
}

/// One model at one provider.
#[derive(Debug)]
pub struct AIProviderConfig {
    pub provider: ProviderType,
    pub model: String,
    pub api_key: String,
}

/// The models in use: the workhorse, and optionally one for summaries.
#[derive(Debug)]
pub struct AIConfig {
    pub workhorse: AIProviderConfig,
    pub summarization: Option<AIProviderConfig>,
}

/// Keys of the tools.
#[derive(Debug)]
pub struct ToolConfig {
    pub tavily_api_key: String,
}

/// Limits and switches of conversation pruning.
///
/// `max_age_hours_bits` is the bit pattern of the age (in hours, a float) at
/// which a turn counts as fully aged.
#[derive(Debug, Clone, Copy, PartialEq, Eq, Structural)]
pub struct PruningConfig {
    pub soft_limit: usize,
    pub hard_limit: usize,
    pub batch_size: usize,
    pub max_age_hours_bits: u64,
    pub enable_memory_persist: bool,
    pub enable_summarization: bool,
}

/// Settings of the agent endpoint and its conversations.
#[derive(Debug)]
pub struct AgentConfig {
    pub host: String,
    pub port: u16,
    pub context_window_size: usize,
    pub pruning: PruningConfig,
}

/// Settings of the Telegram adapter.
#[derive(Debug)]
pub struct TelegramConfig {
    pub bot_token: String,
    pub adapter_key: String,
    pub bind_address: String,
}

/// Where the Restate ingress and introspection endpoints are.
#[derive(Debug)]
pub struct RestateConfig {
    pub ingress_url: String,
    pub introspection_host: String,
    pub introspection_port: u16,
}

/// Where memory entries are kept.
#[derive(Debug)]
pub struct MemoryConfig {
    pub scratch_space_path: String,
}

/// Telemetry export settings.
#[derive(Debug)]
pub struct TelemetryConfig {
    pub enabled: bool,
    pub otlp_endpoint: String,
    pub service_name: String,
    pub export_interval_secs: u64,
}

/// The default model name.
pub fn default_ai_model() -> (res: String)
    ensures
        res@ == "gpt-4o-mini"@,
{
    to_owned_string("gpt-4o-mini")
}

/// The default soft limit on the number of turns.
pub fn default_pruning_soft_limit() -> (res: usize)
    ensures
        res == 40,
{
    40
}

/// The default hard limit on the number of turns.
pub fn default_pruning_hard_limit() -> (res: usize)
    ensures
        res == 50,
{
    50
}

/// The default number of turns evaluated in one pruning pass.
pub fn default_pruning_batch_size() -> (res: usize)
    ensures
        res == 10,
{
    10
}

/// The bit pattern of the default full-age horizon, 168.0 hours.
pub fn default_pruning_max_age_hours_bits() -> (res: u64)
    ensures
        res == 0x4065_0000_0000_0000u64,
{
    0x4065_0000_0000_0000u64
}

/// `true`, the default of the switches.
pub fn default_true() -> (res: bool)
    ensures
        res,
{
    true
}

impl Default for PruningConfig {
    fn default() -> (res: Self)
        ensures
            res.soft_limit == 40,
            res.hard_limit == 50,
            res.batch_size == 10,
            res.max_age_hours_bits == 0x4065_0000_0000_0000u64,
            res.enable_memory_persist,
            res.enable_summarization,
    {
        PruningConfig {
            soft_limit: default_pruning_soft_limit(),
            hard_limit: default_pruning_hard_limit(),
            batch_size: default_pruning_batch_size(),
            max_age_hours_bits: default_pruning_max_age_hours_bits(),
            enable_memory_persist: true,
            enable_summarization: true,
        }
    }
}

/// The default host the agent listens on.
pub fn default_agent_host() -> (res: String)
    ensures
        res@ == "0.0.0.0"@,
{
    to_owned_string("0.0.0.0")
}

/// The default port the agent listens on.
pub fn default_agent_port() -> (res: u16)
    ensures
        res == 9080,
{
    9080
}

/// The default number of turns kept when pruning falls back to dropping the oldest.
pub fn default_context_window_size() -> (res: usize)
    ensures
        res == 50,
{
    50
}

impl Default for AgentConfig {
    fn default() -> (res: Self)
        ensures
            res.host@ == "0.0.0.0"@,
            res.port == 9080,
            res.context_window_size == 50,
            res.pruning.soft_limit == 40,
            res.pruning.hard_limit == 50,
            res.pruning.batch_size == 10,
            res.pruning.max_age_hours_bits == 0x4065_0000_0000_0000u64,
            res.pruning.enable_memory_persist,
            res.pruning.enable_summarization,
    {
        AgentConfig {
            host: default_agent_host(),
            port: default_agent_port(),
            context_window_size: default_context_window_size(),
            pruning: PruningConfig::default(),
        }
    }
}

/// The default key of the Telegram adapter.
pub fn default_telegram_adapter_key() -> (res: String)
    ensures
        res@ == "telegram-adapter"@,
{
    to_owned_string("telegram-adapter")
}

/// The default address the Telegram adapter binds.
pub fn default_telegram_bind_address() -> (res: String)
    ensures
        res@ == "127.0.0.1:9081"@,
{
    to_owned_string("127.0.0.1:9081")
}

impl Default for TelegramConfig {
    fn default() -> (res: Self)
        ensures
            res.bot_token@ == Seq::<char>::empty(),
            res.adapter_key@ == Seq::<char>::empty(),
            res.bind_address@ == Seq::<char>::empty(),
    {
        TelegramConfig { bot_token: String::new(), adapter_key: String::new(), bind_address: String::new() }
    }
}

/// The default Restate ingress URL.
pub fn default_restate_ingress_url() -> (res: String)
    ensures
        res@ == "http://localhost:8080"@,
{
    to_owned_string("http://localhost:8080")
}

/// The default host of the Restate introspection database.
pub fn default_restate_introspection_host() -> (res: String)
    ensures
        res@ == "localhost"@,
{
    to_owned_string("localhost")
}

/// The default port of the Restate introspection database.
pub fn default_restate_introspection_port() -> (res: u16)
    ensures
        res == 5432,
{
    5432
}

impl Default for RestateConfig {
    fn default() -> (res: Self)
        ensures
            res.ingress_url@ == "http://localhost:8080"@,
            res.introspection_host@ == "localhost"@,
            res.introspection_port == 5432,
    {
        RestateConfig {
            ingress_url: default_restate_ingress_url(),
            introspection_host: default_restate_introspection_host(),
            introspection_port: default_restate_introspection_port(),
        }
    }
}

impl RestateConfig {
    /// The connection string of the introspection database.
    pub fn introspection_connection_string(&self) -> (res: String)
        ensures
            res@ == "host="@ + self.introspection_host@ + " port="@
                + nat_decimal(self.introspection_port as nat)
                + " user=restate password=restate dbname=restate"@,
    {
        let mut s = to_owned_string("host=");
        push_str(&mut s, self.introspection_host.as_str());
        push_str(&mut s, " port=");
        let port = u64_to_decimal(self.introspection_port as u64);
        push_str(&mut s, port.as_str());
        push_str(&mut s, " user=restate password=restate dbname=restate");
        s
    }
}

/// The memory directory for a home directory: `<home>/.boomerang/memory`, or
/// `/tmp/boomerang/memory` when there is no home directory.
pub fn default_scratch_space_path(home: Option<&str>) -> (res: String)
    ensures
        res@ == match home {
            Some(h) => crate::memory::path_join(h@, ".boomerang/memory"@),
            None => "/tmp/boomerang/memory"@,
        },
{
    match home {
        Some(h) => crate::memory::join_path(h, ".boomerang/memory"),
        None => to_owned_string("/tmp/boomerang/memory"),
    }
}

impl MemoryConfig {
    /// The default memory settings for the given home directory.
    pub fn default_for_home(home: Option<&str>) -> (res: Self)
        ensures
            res.scratch_space_path@ == match home {
                Some(h) => crate::memory::path_join(h@, ".boomerang/memory"@),
                None => "/tmp/boomerang/memory"@,
            },
    {
        MemoryConfig { scratch_space_path: default_scratch_space_path(home) }
    }
}

/// The current user's home directory as text (`dirs::home_dir`), or none
/// when there is none or it is not valid UTF-8.
///
/// Trusted: it depends on the environment; nothing is stated of it.
#[verifier::external_body]
fn home_dir_text() -> (res: Option<String>) {
    dirs::home_dir().and_then(|p| p.to_str().map(|s| s.to_string()))
}

/// A memory directory that `default_scratch_space_path` can give: under some
/// home directory, or the fallback in `/tmp`.
pub open spec fn default_memory_path(path: Seq<char>) -> bool {
    path == "/tmp/boomerang/memory"@ || exists|h: Seq<char>| path == crate::memory::path_join(h, ".boomerang/memory"@)
}

impl Default for MemoryConfig {
    /// The memory settings for the current user's home directory.
    fn default() -> (res: Self)
        ensures
            default_memory_path(res.scratch_space_path@),
    {
        let home = home_dir_text();
        match &home {
            Some(h) => {
                let c = MemoryConfig::default_for_home(Some(h.as_str()));
                assert(c.scratch_space_path@ == crate::memory::path_join(h@, ".boomerang/memory"@));
                c
            },
            None => MemoryConfig::default_for_home(None),
        }
    }
}

/// Telemetry is on by default.
pub fn default_telemetry_enabled() -> (res: bool)
    ensures
        res,
{
    true
}

/// The default OTLP endpoint.
pub fn default_otlp_endpoint() -> (res: String)
    ensures
        res@ == "http://localhost:4318"@,
{
    to_owned_string("http://localhost:4318")
}

/// The default service name.
pub fn default_service_name() -> (res: String)
    ensures
        res@ == "boomerang"@,
{
    to_owned_string("boomerang")
}

/// The default interval between metric exports, in seconds.
pub fn default_export_interval_secs() -> (res: u64)
    ensures
        res == 60,
{
    60
}

impl Default for TelemetryConfig {
    fn default() -> (res: Self)
        ensures
            res.enabled,
            res.otlp_endpoint@ == "http://localhost:4318"@,
            res.service_name@ == "boomerang"@,
            res.export_interval_secs == 60,
    {
        TelemetryConfig {
            enabled: default_telemetry_enabled(),
            otlp_endpoint: default_otlp_endpoint(),
            service_name: default_service_name(),
            export_interval_secs: default_export_interval_secs(),
        }
    }
}

impl Default for Config {
    /// The default configuration for the current user's home directory.
    fn default() -> (res: Self)
        ensures
            res.ai.workhorse.provider == ProviderType::OpenAI,
            res.ai.workhorse.model@ == "gpt-4o-mini"@,
            res.ai.workhorse.api_key@ == Seq::<char>::empty(),
            res.ai.summarization is None,
            res.tools.tavily_api_key@ == Seq::<char>::empty(),
            res.agent.context_window_size == 50,
            res.restate.ingress_url@ == "http://localhost:8080"@,
            res.telemetry.enabled,
            default_memory_path(res.memory.scratch_space_path@),
    {
        let home = home_dir_text();
        match &home {
            Some(h) => {
                let c = Config::default_for_home(Some(h.as_str()));
                assert(c.memory.scratch_space_path@ == crate::memory::path_join(h@, ".boomerang/memory"@));
                c
            },
            None => Config::default_for_home(None),
        }
    }
}

impl Config {
    /// The default configuration for the given home directory: the default
    /// model at OpenAI with an empty key, no summarization model, an empty
    /// search key, and the defaults of every section.
    pub fn default_for_home(home: Option<&str>) -> (res: Self)
        ensures
            res.ai.workhorse.provider == ProviderType::OpenAI,
            res.ai.workhorse.model@ == "gpt-4o-mini"@,
            res.ai.workhorse.api_key@ == Seq::<char>::empty(),
            res.ai.summarization is None,
            res.tools.tavily_api_key@ == Seq::<char>::empty(),
            res.agent.context_window_size == 50,
            res.agent.pruning == (PruningConfig {
                soft_limit: 40,
                hard_limit: 50,
                batch_size: 10,
                max_age_hours_bits: 0x4065_0000_0000_0000u64,
                enable_memory_persist: true,
                enable_summarization: true,
            }),
            res.restate.ingress_url@ == "http://localhost:8080"@,
            res.telemetry.enabled,
            res.memory.scratch_space_path@ == match home {
                Some(h) => crate::memory::path_join(h@, ".boomerang/memory"@),
                None => "/tmp/boomerang/memory"@,
            },
    {
        Config {
            ai: AIConfig {
                workhorse: AIProviderConfig {
                    provider: ProviderType::default(),
                    model: default_ai_model(),
                    api_key: String::new(),
                },
                summarization: None,
            },
            tools: ToolConfig { tavily_api_key: String::new() },
            agent: AgentConfig::default(),
            telegram: TelegramConfig::default(),
            restate: RestateConfig::default(),
            memory: MemoryConfig::default_for_home(home),
            telemetry: TelemetryConfig::default(),
        }
    }
}

} // verus!
