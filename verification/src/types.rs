//! The runtime's shared data types: tasks and their priorities, memory
//! metadata, tool and network configuration, browser pool records.
use vstd::prelude::*;
use std::collections::HashMap;
use std::time::Duration;

verus! {

// ───────────────────────── tasks ─────────────────────────

/// A unit of work handed to a sub-agent.
#[derive(Debug, Clone)]
pub struct Task {
    pub id: u64,
    pub scene_id: u64,
    pub priority: Priority,
    pub kind: TaskKind,
    pub state: TaskState,
    pub retry_count: u8,
    pub max_retries: u8,
    pub timeout: Duration,
    pub assigned_to: Option<u64>,
    pub created_at: u64,
    pub tags: Vec<String>,
    pub description: String,
}

impl Task {
    /// The task's free-text description.
    pub fn description(&self) -> (r: &str)
        ensures
            r@ == self.description@,
    {
        self.description.as_str()
    }
}

/// What kind of work a task is.
#[derive(Debug, Clone, Copy, PartialEq, Eq, Structural)]
pub enum TaskKind {
    Reasoning,
    ToolCall,
    FileOp,
    Browser,
    Knowledge,
}

/// Task urgency, most urgent first. Each level carries a numeric weight
/// (see [`Priority::level`]): 0, 1, 4, 8, 16.
#[derive(Debug, Clone, Copy, PartialEq, Eq, Structural, PartialOrd, Ord)]
pub enum Priority {
    Emergency,
    High,
    Normal,
    Low,
    Background,
}

/// The numeric weight of a priority.
pub open spec fn priority_level(p: Priority) -> u8 {
    match p {
        Priority::Emergency => 0,
        Priority::High => 1,
        Priority::Normal => 4,
        Priority::Low => 8,
        Priority::Background => 16,
    }
}

impl Priority {
    /// The numeric weight of this priority.
    pub fn level(&self) -> (r: u8)
        ensures
            r == priority_level(*self),
    {
        match self {
            Priority::Emergency => 0,
            Priority::High => 1,
            Priority::Normal => 4,
            Priority::Low => 8,
            Priority::Background => 16,
        }
    }
}

/// Where a task is in its life.
#[derive(Debug, Clone, Copy, PartialEq, Eq, Structural)]
pub enum TaskState {
    Pending,
    Queued,
    Running,
    Completed,
    Failed,
    TimedOut,
    DeadLetter,
    Canceled,
}

// ───────────────────────── memory metadata ─────────────────────────

/// Which scenes a memory belongs to: one, all, or some.
#[derive(Debug, Clone, PartialEq, Eq)]
pub enum MemoryScope {
    Single(u64),
    All,
    Partial(Vec<u64>),
}

/// What kind of knowledge a memory holds.
#[derive(Debug, Clone, Copy, PartialEq, Eq, Structural)]
pub enum MemoryCategory {
    Knowledge,
    Habit,
    Experience,
    Rule,
    Relation,
}

/// What a sub-agent specializes in.
#[derive(Debug, Clone, Copy, PartialEq, Eq, Hash, Structural)]
pub enum SubAgentType {
    Browser,
    FileOp,
    Reasoning,
    General,
}

/// The health and load of a sub-agent.
#[derive(Debug, Clone, Copy, PartialEq, Eq, Structural)]
pub enum SubAgentState {
    Idle,
    Busy,
    Overloaded,
    Unhealthy,
    Dead,
}

/// Who owns a memory: an agent, every agent of a type, or everyone.
#[derive(Debug, Clone, Copy, PartialEq, Eq, Structural)]
pub enum OwnerId {
    Agent(u64),
    AgentType(SubAgentType),
    All,
}

// ───────────────────────── tools ─────────────────────────

/// Which tools a scene allows, by tool name or by group name.
#[derive(Debug, Clone)]
pub struct ToolConfig {
    pub allow: Vec<String>,
    pub deny: Vec<String>,
    pub protection_paths: Vec<String>,
    pub granted: HashMap<String, GrantLevel>,
}

/// How a tool was granted.
#[derive(Debug, Clone, Copy, PartialEq, Eq, Structural)]
pub enum GrantLevel {
    AllowPermanent,
    AllowOnce,
    Deny,
}

/// Size limits of the memory layers.
#[derive(Debug, Clone, Copy, PartialEq, Eq, Structural)]
pub struct MemoryConfig {
    pub global_max_mb: u32,
    pub scene_summary_max_kb: u32,
    pub scene_full_max_mb: u32,
}

impl Default for MemoryConfig {
    /// All limits zero.
    fn default() -> (r: Self)
        ensures
            r.global_max_mb == 0,
            r.scene_summary_max_kb == 0,
            r.scene_full_max_mb == 0,
    {
        MemoryConfig { global_max_mb: 0, scene_summary_max_kb: 0, scene_full_max_mb: 0 }
    }
}

// ───────────────────────── browser pool records ─────────────────────────

/// A browser context and its tabs.
#[derive(Debug, Clone)]
pub struct BrowserContext {
    pub id: u64,
    pub tabs: Vec<Tab>,
    pub state: ContextState,
}

/// A browser tab and the page it shows.
#[derive(Debug, Clone)]
pub struct Tab {
    pub id: u64,
    pub url: Option<String>,
}

/// A pool of browser contexts with its limits.
#[derive(Debug, Clone)]
pub struct ContextPool {
    pub contexts: Vec<BrowserContext>,
    pub max_size: usize,
    pub idle_timeout: Duration,
    pub max_tabs_per_context: usize,
}

/// The headless and the headful pool of the runtime's browser.
#[derive(Debug, Clone)]
pub struct BrowserManager {
    pub headless_pool: ContextPool,
    pub headful_pool: ContextPool,
}

/// Whether a browser context is in use, dormant or closed.
#[derive(Debug, Clone, Copy, PartialEq, Eq, Structural)]
pub enum ContextState {
    Active,
    Dormant,
    Dead,
}

// ───────────────────────── configuration ─────────────────────────

/// Limits and timings of the scheduler.
#[derive(Debug, Clone, Copy, PartialEq, Eq, Structural)]
pub struct SchedulerConfig {
    pub global_max_parallelism: u32,
    pub per_scene_max_parallelism: u32,
    pub default_timeout_secs: u32,
    pub max_retries: u8,
    pub retry_base_delay_ms: u32,
    pub heartbeat_interval_secs: u32,
}

impl Default for SchedulerConfig {
    /// The scheduler settings of the default configuration.
    fn default() -> (r: Self)
        ensures
            r.global_max_parallelism == 100_000,
            r.per_scene_max_parallelism == 10_000,
            r.default_timeout_secs == 30,
            r.max_retries == 3,
            r.retry_base_delay_ms == 500,
            r.heartbeat_interval_secs == 5,
    {
        SchedulerConfig {
            global_max_parallelism: 100_000,
            per_scene_max_parallelism: 10_000,
            default_timeout_secs: 30,
            max_retries: 3,
            retry_base_delay_ms: 500,
            heartbeat_interval_secs: 5,
        }
    }
}

/// Where the daemon listens, locally and for remote access.
#[derive(Debug, Clone)]
pub struct NetworkConfig {
    pub local: LocalNet,
    pub remote: RemoteNet,
}

/// The local listener.
#[derive(Debug, Clone)]
pub struct LocalNet {
    pub bind: String,
    pub port: u16,
    pub auto_trust: bool,
}

/// The remote listener and how it authenticates.
#[derive(Debug, Clone)]
pub struct RemoteNet {
    pub enabled: bool,
    pub bind: String,
    pub port: u16,
    pub domain: String,
    pub auth_mode: String,
    pub tls_cert: String,
    pub tls_key: String,
}

impl Default for NetworkConfig {
    /// The network settings of the default configuration: a trusted local
    /// listener on 127.0.0.1:8742 and a disabled remote one on 0.0.0.0:8742
    /// with token authentication.
    fn default() -> (r: Self)
        ensures
            r.local.bind@ == "127.0.0.1"@,
            r.local.port == 8742,
            r.local.auto_trust,
            !r.remote.enabled,
            r.remote.bind@ == "0.0.0.0"@,
            r.remote.port == 8742,
            r.remote.domain@ == Seq::<char>::empty(),
            r.remote.auth_mode@ == "token"@,
            r.remote.tls_cert@ == Seq::<char>::empty(),
            r.remote.tls_key@ == Seq::<char>::empty(),
    {
        NetworkConfig {
            local: LocalNet { bind: "127.0.0.1".to_owned(), port: 8742, auto_trust: true },
            remote: RemoteNet {
                enabled: false,
                bind: "0.0.0.0".to_owned(),
                port: 8742,
                domain: String::new(),
                auth_mode: "token".to_owned(),
                tls_cert: String::new(),
                tls_key: String::new(),
            },
        }
    }
}

/// Scene detection settings.
#[derive(Debug, Clone)]
pub struct SceneSettings {
    pub auto_detect: bool,
    pub debounce_ms: u32,
    pub default_scene: String,
}

impl Default for SceneSettings {
    /// Scene detection on, 200 ms debounce, default scene "general".
    fn default() -> (r: Self)
        ensures
            r.auto_detect,
            r.debounce_ms == 200,
            r.default_scene@ == "general"@,
    {
        SceneSettings { auto_detect: true, debounce_ms: 200, default_scene: "general".to_owned() }
    }
}

/// The memory limits of the default configuration: 1 MB global,
/// 100 KB per scene summary, 50 MB per full scene.
pub fn default_memory_limits() -> (r: MemoryConfig)
    ensures
        r.global_max_mb == 1,
        r.scene_summary_max_kb == 100,
        r.scene_full_max_mb == 50,
{
    MemoryConfig { global_max_mb: 1, scene_summary_max_kb: 100, scene_full_max_mb: 50 }
}

} // verus!
