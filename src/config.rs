//! Configuration with its defaults.
use vstd::prelude::*;
use vstd::string::StringExecFns;

verus! {

/// Which voting rule the consensus engine applies.
#[derive(Debug, Clone, Copy, PartialEq, Eq, Structural)]
pub enum ConsensusRule {
    Golden,
    Weak,
    Strong,
}

#[derive(Debug, Clone)]
pub struct GeneralConfig {
    pub log_level: String,
    pub log_format: String,
    pub timeout_secs: u64,
}

/// How one evaluator command is run.
#[derive(Debug, Clone)]
pub struct ExecutorConfig {
    pub enabled: bool,
    pub command: String,
    pub args: Vec<String>,
    pub timeout_secs: u64,
    pub weight: u8,
}

#[derive(Debug, Clone)]
pub struct ExecutorsConfig {
    pub codex: ExecutorConfig,
    pub gemini: ExecutorConfig,
    pub qwen: ExecutorConfig,
}

#[derive(Debug, Clone, Copy)]
pub struct ConsensusConfig {
    pub default_rule: ConsensusRule,
    pub min_score: u8,
    pub max_loops: u8,
}

#[derive(Debug, Clone)]
pub struct ReasoningConfig {
    pub enabled: bool,
    pub db_path: String,
    pub max_patterns_per_query: usize,
    pub consolidation_interval: usize,
}

#[derive(Debug, Clone, Copy)]
pub struct CacheConfig {
    pub enabled: bool,
    pub capacity: usize,
    pub ttl_secs: u64,
}

#[derive(Debug, Clone)]
pub struct Config {
    pub general: GeneralConfig,
    pub executors: ExecutorsConfig,
    pub consensus: ConsensusConfig,
    pub reasoning: ReasoningConfig,
    pub cache: CacheConfig,
}

pub const DEFAULT_EXECUTOR_TIMEOUT: u64 = 30;

pub const DEFAULT_WEIGHT: u8 = 5;

/// The strings of `v`, as character sequences.
pub open spec fn strings_view(v: Seq<String>) -> Seq<Seq<char>> {
    v.map_values(|s: String| s@)
}

fn strings_of(args: &[&str]) -> (r: Vec<String>)
    ensures
        r@.len() == args@.len(),
        forall|i: int| 0 <= i < args@.len() ==> #[trigger] r@[i]@ == args@[i]@,
{
    let mut r: Vec<String> = Vec::new();
    let mut i: usize = 0;
    while i < args.len()
        invariant
            i <= args@.len(),
            r@.len() == i,
            forall|k: int| 0 <= k < i ==> #[trigger] r@[k]@ == args@[k]@,
        decreases args.len() - i,
    {
        r.push(String::from_str(args[i]));
        i += 1;
    }
    r
}

impl ExecutorConfig {
    /// An enabled evaluator with the default timeout and weight.
    pub fn new(command: &str, args: &[&str]) -> (r: ExecutorConfig)
        ensures
            r.enabled,
            r.command@ == command@,
            r.args@.len() == args@.len(),
            forall|i: int| 0 <= i < args@.len() ==> #[trigger] r.args@[i]@ == args@[i]@,
            r.timeout_secs == DEFAULT_EXECUTOR_TIMEOUT,
            r.weight == DEFAULT_WEIGHT,
    {
        ExecutorConfig {
            enabled: true,
            command: String::from_str(command),
            args: strings_of(args),
            timeout_secs: DEFAULT_EXECUTOR_TIMEOUT,
            weight: DEFAULT_WEIGHT,
        }
    }
}

impl GeneralConfig {
    pub fn default_config() -> (r: GeneralConfig)
        ensures
            r.log_level@ == "info"@,
            r.log_format@ == "text"@,
            r.timeout_secs == 60,
    {
        GeneralConfig {
            log_level: String::from_str("info"),
            log_format: String::from_str("text"),
            timeout_secs: 60,
        }
    }
}

impl ExecutorsConfig {
    /// The three evaluators with their usual command lines.
    pub fn default_config() -> (r: ExecutorsConfig)
        ensures
            r.codex.command@ == "codex"@,
            r.gemini.command@ == "gemini"@,
            r.qwen.command@ == "qwen"@,
            r.codex.enabled && r.gemini.enabled && r.qwen.enabled,
            r.codex.args@.len() == 2,
            r.codex.args@[0]@ == "exec"@,
            r.codex.args@[1]@ == "--json"@,
            r.gemini.args@.len() == 2,
            r.gemini.args@[0]@ == "-o"@,
            r.gemini.args@[1]@ == "json"@,
            r.qwen.args@.len() == 0,
            r.codex.timeout_secs == DEFAULT_EXECUTOR_TIMEOUT && r.gemini.timeout_secs
                == DEFAULT_EXECUTOR_TIMEOUT && r.qwen.timeout_secs == DEFAULT_EXECUTOR_TIMEOUT,
            r.codex.weight == DEFAULT_WEIGHT && r.gemini.weight == DEFAULT_WEIGHT && r.qwen.weight
                == DEFAULT_WEIGHT,
    {
        ExecutorsConfig {
            codex: ExecutorConfig::new("codex", &["exec", "--json"]),
            gemini: ExecutorConfig::new("gemini", &["-o", "json"]),
            qwen: ExecutorConfig::new("qwen", &[]),
        }
    }
}

impl ConsensusConfig {
    pub open spec fn default_spec() -> ConsensusConfig {
        ConsensusConfig { default_rule: ConsensusRule::Strong, min_score: 70, max_loops: 3 }
    }

    pub fn default_config() -> (r: ConsensusConfig)
        ensures
            r == ConsensusConfig::default_spec(),
    {
        ConsensusConfig { default_rule: ConsensusRule::Strong, min_score: 70, max_loops: 3 }
    }
}

impl ReasoningConfig {
    pub fn default_config() -> (r: ReasoningConfig)
        ensures
            r.enabled,
            r.db_path@ == ".tetrad/tetrad.db"@,
            r.max_patterns_per_query == 10,
            r.consolidation_interval == 100,
    {
        ReasoningConfig {
            enabled: true,
            db_path: String::from_str(".tetrad/tetrad.db"),
            max_patterns_per_query: 10,
            consolidation_interval: 100,
        }
    }
}

impl CacheConfig {
    pub fn default_config() -> (r: CacheConfig)
        ensures
            r.enabled,
            r.capacity == 1000,
            r.ttl_secs == 300,
    {
        CacheConfig { enabled: true, capacity: 1000, ttl_secs: 300 }
    }
}

impl Config {
    /// Every section at its defaults.
    pub fn default_config() -> (r: Config)
        ensures
            r.consensus.default_rule == ConsensusRule::Strong,
            r.consensus.min_score == 70,
            r.consensus.max_loops == 3,
            r.cache.capacity == 1000,
            r.cache.ttl_secs == 300,
            r.reasoning.enabled,
            r.reasoning.max_patterns_per_query == 10,
            r.reasoning.db_path@ == ".tetrad/tetrad.db"@,
            r.reasoning.consolidation_interval == 100,
            r.cache.enabled,
            r.general.timeout_secs == 60,
            r.general.log_level@ == "info"@,
            r.general.log_format@ == "text"@,
            r.executors.codex.command@ == "codex"@,
            r.executors.gemini.command@ == "gemini"@,
            r.executors.qwen.command@ == "qwen"@,
            r.executors.codex.enabled && r.executors.gemini.enabled && r.executors.qwen.enabled,
            r.executors.codex.args@.len() == 2,
            r.executors.codex.args@[0]@ == "exec"@,
            r.executors.codex.args@[1]@ == "--json"@,
            r.executors.gemini.args@.len() == 2,
            r.executors.gemini.args@[0]@ == "-o"@,
            r.executors.gemini.args@[1]@ == "json"@,
            r.executors.qwen.args@.len() == 0,
            r.executors.codex.timeout_secs == DEFAULT_EXECUTOR_TIMEOUT
                && r.executors.gemini.timeout_secs == DEFAULT_EXECUTOR_TIMEOUT
                && r.executors.qwen.timeout_secs == DEFAULT_EXECUTOR_TIMEOUT,
            r.executors.codex.weight == DEFAULT_WEIGHT && r.executors.gemini.weight == DEFAULT_WEIGHT
                && r.executors.qwen.weight == DEFAULT_WEIGHT,
    {
        Config {
            general: GeneralConfig::default_config(),
            executors: ExecutorsConfig::default_config(),
            consensus: ConsensusConfig::default_config(),
            reasoning: ReasoningConfig::default_config(),
            cache: CacheConfig::default_config(),
        }
    }
}

} // verus!
