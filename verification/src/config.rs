//! Configuration: the tunable values, their defaults, the name parsers, and
//! the merge of file values with command-line overrides.
//!
//! Values are fixed point: prices in cents, times in milliseconds, scale
//! factors in thousandths, probabilities in parts per billion.

use vstd::prelude::*;
use vstd::string::*;
use crate::scenario::Scenario;
use crate::text::str_eq;

verus! {

/// Where output lines go.
#[derive(Clone, Copy, Debug, PartialEq, Eq, Structural)]
pub enum OutputMode {
    Console,
    File,
    Both,
    Quiet,
}

impl OutputMode {
    /// The mode's configuration name.
    pub open spec fn spec_name(self) -> Seq<char> {
        match self {
            OutputMode::Console => "console"@,
            OutputMode::File => "file"@,
            OutputMode::Both => "both"@,
            OutputMode::Quiet => "quiet"@,
        }
    }

    pub fn name(self) -> (r: &'static str)
        ensures
            r@ == self.spec_name(),
    {
        match self {
            OutputMode::Console => "console",
            OutputMode::File => "file",
            OutputMode::Both => "both",
            OutputMode::Quiet => "quiet",
        }
    }

    /// Whether lines go to the console.
    pub fn writes_console(self) -> (r: bool)
        ensures
            r == (self is Console || self is Both),
    {
        match self {
            OutputMode::Console => true,
            OutputMode::Both => true,
            _ => false,
        }
    }

    /// Whether lines go to the log file.
    pub fn writes_file(self) -> (r: bool)
        ensures
            r == (self is File || self is Both),
    {
        match self {
            OutputMode::File => true,
            OutputMode::Both => true,
            _ => false,
        }
    }
}

impl Default for OutputMode {
    fn default() -> (r: Self)
        ensures
            r is Console,
    {
        OutputMode::Console
    }
}

/// How messages are encoded on the multicast wire.
#[derive(Clone, Copy, Debug, PartialEq, Eq, Structural)]
pub enum WireFormat {
    Text,
    Binary,
}

impl WireFormat {
    /// The format's configuration name.
    pub open spec fn spec_name(self) -> Seq<char> {
        match self {
            WireFormat::Text => "text"@,
            WireFormat::Binary => "binary"@,
        }
    }

    pub fn name(self) -> (r: &'static str)
        ensures
            r@ == self.spec_name(),
    {
        match self {
            WireFormat::Text => "text",
            WireFormat::Binary => "binary",
        }
    }
}

impl Default for WireFormat {
    fn default() -> (r: Self)
        ensures
            r is Text,
    {
        WireFormat::Text
    }
}

/// The output mode a name stands for.
pub open spec fn spec_parse_output_mode(s: Seq<char>) -> Option<OutputMode> {
    if s == "console"@ {
        Some(OutputMode::Console)
    } else if s == "file"@ {
        Some(OutputMode::File)
    } else if s == "both"@ {
        Some(OutputMode::Both)
    } else if s == "quiet"@ {
        Some(OutputMode::Quiet)
    } else {
        None
    }
}

/// Parse an output-mode name.
pub fn parse_output_mode(s: &str) -> (r: Option<OutputMode>)
    ensures
        r == spec_parse_output_mode(s@),
{
    if str_eq(s, "console") {
        Some(OutputMode::Console)
    } else if str_eq(s, "file") {
        Some(OutputMode::File)
    } else if str_eq(s, "both") {
        Some(OutputMode::Both)
    } else if str_eq(s, "quiet") {
        Some(OutputMode::Quiet)
    } else {
        None
    }
}

/// The wire format a name stands for.
pub open spec fn spec_parse_wire_format(s: Seq<char>) -> Option<WireFormat> {
    if s == "text"@ {
        Some(WireFormat::Text)
    } else if s == "binary"@ {
        Some(WireFormat::Binary)
    } else {
        None
    }
}

/// Parse a wire-format name.
pub fn parse_wire_format(s: &str) -> (r: Option<WireFormat>)
    ensures
        r == spec_parse_wire_format(s@),
{
    if str_eq(s, "text") {
        Some(WireFormat::Text)
    } else if str_eq(s, "binary") {
        Some(WireFormat::Binary)
    } else {
        None
    }
}

/// The `simulation` section of the configuration file.
#[derive(Clone, Debug)]
pub struct SimulationConfig {
    pub scenario: Scenario,
    /// Starting mid price, cents.
    pub initial_price_cents: u64,
    /// Loop pacing, milliseconds per tick.
    pub tick_interval_ms: u64,
    /// Minimum price increment, cents.
    pub tick_size_cents: u64,
    /// Multiplier on all Poisson rates, thousandths.
    pub throughput_scale_milli: u64,
    pub seed: Option<u64>,
}

impl Default for SimulationConfig {
    fn default() -> (r: Self)
        ensures
            r.scenario is Normal,
            r.initial_price_cents == 10_000,
            r.tick_interval_ms == 100,
            r.tick_size_cents == 1,
            r.throughput_scale_milli == 1000,
            r.seed is None,
    {
        SimulationConfig {
            scenario: Scenario::Normal,
            initial_price_cents: 10_000,
            tick_interval_ms: 100,
            tick_size_cents: 1,
            throughput_scale_milli: 1000,
            seed: None,
        }
    }
}

/// The `output` section of the configuration file.
#[derive(Clone, Debug)]
pub struct OutputConfig {
    pub mode: OutputMode,
    pub log_file: String,
    /// Seconds between summary blocks, milliseconds.
    pub display_interval_ms: u64,
}

impl Default for OutputConfig {
    fn default() -> (r: Self)
        ensures
            r.mode is Console,
            r.log_file@ == "orderflow.log"@,
            r.display_interval_ms == 1000,
    {
        OutputConfig {
            mode: OutputMode::Console,
            log_file: String::from_str("orderflow.log"),
            display_interval_ms: 1000,
        }
    }
}

/// The `network` section of the configuration file.
#[derive(Clone, Debug)]
pub struct NetworkConfig {
    pub multicast_group: String,
    pub multicast_port: u16,
    pub wire_format: WireFormat,
}

impl Default for NetworkConfig {
    fn default() -> (r: Self)
        ensures
            r.multicast_group@ == "239.255.0.1"@,
            r.multicast_port == 5555,
            r.wire_format is Text,
    {
        NetworkConfig {
            multicast_group: String::from_str("239.255.0.1"),
            multicast_port: 5555,
            wire_format: WireFormat::Text,
        }
    }
}

/// The `orders` section of the configuration file. The log-normal size
/// parameters are fixed point in thousandths.
#[derive(Clone, Debug)]
pub struct OrderConfig {
    pub size_mean_log_milli: i64,
    pub size_std_log_milli: i64,
    pub ttl_min_ms: u64,
    pub ttl_max_ms: u64,
}

impl Default for OrderConfig {
    fn default() -> (r: Self)
        ensures
            r.size_mean_log_milli == 3000,
            r.size_std_log_milli == 1000,
            r.ttl_min_ms == 1000,
            r.ttl_max_ms == 30_000,
    {
        OrderConfig {
            size_mean_log_milli: 3000,
            size_std_log_milli: 1000,
            ttl_min_ms: 1000,
            ttl_max_ms: 30_000,
        }
    }
}

/// The `shocks` section of the configuration file, in parts per billion.
#[derive(Clone, Debug)]
pub struct ShockConfig {
    pub probability_ppb: u64,
    pub min_pct_ppb: u64,
    pub max_pct_ppb: u64,
}

impl Default for ShockConfig {
    fn default() -> (r: Self)
        ensures
            r.probability_ppb == 300_000,
            r.min_pct_ppb == 20_000_000,
            r.max_pct_ppb == 60_000_000,
    {
        ShockConfig { probability_ppb: 300_000, min_pct_ppb: 20_000_000, max_pct_ppb: 60_000_000 }
    }
}

/// The `control` section of the configuration file.
#[derive(Clone, Debug)]
pub struct ControlConfig {
    pub enabled: bool,
    pub bind: String,
}

impl Default for ControlConfig {
    fn default() -> (r: Self)
        ensures
            r.enabled,
            r.bind@ == "127.0.0.1:6001"@,
    {
        ControlConfig { enabled: true, bind: String::from_str("127.0.0.1:6001") }
    }
}

/// The whole configuration file.
#[derive(Clone, Debug)]
pub struct FileConfig {
    pub simulation: SimulationConfig,
    pub network: NetworkConfig,
    pub orders: OrderConfig,
    pub shocks: ShockConfig,
    pub output: OutputConfig,
    pub control: ControlConfig,
}

impl Default for FileConfig {
    fn default() -> (r: Self)
        ensures
            r.simulation.scenario is Normal,
            r.simulation.initial_price_cents == 10_000,
            r.simulation.tick_interval_ms == 100,
            r.simulation.tick_size_cents == 1,
            r.simulation.throughput_scale_milli == 1000,
            r.simulation.seed is None,
            r.network.multicast_port == 5555,
            r.network.wire_format is Text,
            r.orders.ttl_min_ms == 1000,
            r.orders.ttl_max_ms == 30_000,
            r.shocks.probability_ppb == 300_000,
            r.output.mode is Console,
            r.output.display_interval_ms == 1000,
            r.control.enabled,
    {
        FileConfig {
            simulation: Default::default(),
            network: Default::default(),
            orders: Default::default(),
            shocks: Default::default(),
            output: Default::default(),
            control: Default::default(),
        }
    }
}

/// The command-line overrides, already parsed to the library's types. A
/// `Some` wins over the file's value.
#[derive(Clone, Debug)]
pub struct CliOverrides {
    pub scenario: Option<Scenario>,
    pub multicast_group: Option<String>,
    pub multicast_port: Option<u16>,
    pub initial_price_cents: Option<u64>,
    pub tick_interval_ms: Option<u64>,
    pub tick_size_cents: Option<u64>,
    pub shock_prob_ppb: Option<u64>,
    pub output_mode: Option<OutputMode>,
    pub log_file: Option<String>,
    pub throughput_scale_milli: Option<u64>,
    pub display_interval_ms: Option<u64>,
    pub seed: Option<u64>,
    pub wire_format: Option<WireFormat>,
    pub control_enabled: Option<bool>,
    pub control_bind: Option<String>,
}

impl CliOverrides {
    /// No overrides.
    pub fn none() -> (r: Self)
        ensures
            r.scenario is None,
            r.multicast_group is None,
            r.multicast_port is None,
            r.initial_price_cents is None,
            r.tick_interval_ms is None,
            r.tick_size_cents is None,
            r.shock_prob_ppb is None,
            r.output_mode is None,
            r.log_file is None,
            r.throughput_scale_milli is None,
            r.display_interval_ms is None,
            r.seed is None,
            r.wire_format is None,
            r.control_enabled is None,
            r.control_bind is None,
    {
        CliOverrides {
            scenario: None,
            multicast_group: None,
            multicast_port: None,
            initial_price_cents: None,
            tick_interval_ms: None,
            tick_size_cents: None,
            shock_prob_ppb: None,
            output_mode: None,
            log_file: None,
            throughput_scale_milli: None,
            display_interval_ms: None,
            seed: None,
            wire_format: None,
            control_enabled: None,
            control_bind: None,
        }
    }
}

/// The resolved configuration the run starts from.
#[derive(Clone, Debug)]
pub struct AppConfig {
    pub config_path: Option<String>,
    pub scenario: Scenario,
    pub initial_price_cents: u64,
    pub tick_interval_ms: u64,
    pub tick_size_cents: u64,
    pub multicast_group: String,
    pub multicast_port: u16,
    pub wire_format: WireFormat,
    pub size_mean_log_milli: i64,
    pub size_std_log_milli: i64,
    pub ttl_min_ms: u64,
    pub ttl_max_ms: u64,
    pub shock_prob_ppb: u64,
    pub shock_min_pct_ppb: u64,
    pub shock_max_pct_ppb: u64,
    pub output_mode: OutputMode,
    pub log_file: String,
    pub display_interval_ms: u64,
    pub throughput_scale_milli: u64,
    pub seed: u64,
    pub control_enabled: bool,
    pub control_bind: String,
}

impl AppConfig {
    /// Merge the configuration file with the command-line overrides: an
    /// override wins wherever one was given; the seed falls back to a fresh
    /// random value when neither names one.
    pub fn resolve(cli: &CliOverrides, file: &FileConfig, config_path: Option<String>) -> (r:
        AppConfig)
        ensures
            r.scenario == if cli.scenario is Some {
                cli.scenario->0
            } else {
                file.simulation.scenario
            },
            r.initial_price_cents == if cli.initial_price_cents is Some {
                cli.initial_price_cents->0
            } else {
                file.simulation.initial_price_cents
            },
            r.tick_interval_ms == if cli.tick_interval_ms is Some {
                cli.tick_interval_ms->0
            } else {
                file.simulation.tick_interval_ms
            },
            r.tick_size_cents == if cli.tick_size_cents is Some {
                cli.tick_size_cents->0
            } else {
                file.simulation.tick_size_cents
            },
            r.multicast_group@ == if cli.multicast_group is Some {
                cli.multicast_group->0@
            } else {
                file.network.multicast_group@
            },
            r.multicast_port == if cli.multicast_port is Some {
                cli.multicast_port->0
            } else {
                file.network.multicast_port
            },
            r.wire_format == if cli.wire_format is Some {
                cli.wire_format->0
            } else {
                file.network.wire_format
            },
            r.size_mean_log_milli == file.orders.size_mean_log_milli,
            r.size_std_log_milli == file.orders.size_std_log_milli,
            r.ttl_min_ms == file.orders.ttl_min_ms,
            r.ttl_max_ms == file.orders.ttl_max_ms,
            r.shock_prob_ppb == if cli.shock_prob_ppb is Some {
                cli.shock_prob_ppb->0
            } else {
                file.shocks.probability_ppb
            },
            r.shock_min_pct_ppb == file.shocks.min_pct_ppb,
            r.shock_max_pct_ppb == file.shocks.max_pct_ppb,
            r.output_mode == if cli.output_mode is Some {
                cli.output_mode->0
            } else {
                file.output.mode
            },
            r.log_file@ == if cli.log_file is Some {
                cli.log_file->0@
            } else {
                file.output.log_file@
            },
            r.display_interval_ms == if cli.display_interval_ms is Some {
                cli.display_interval_ms->0
            } else {
                file.output.display_interval_ms
            },
            r.throughput_scale_milli == if cli.throughput_scale_milli is Some {
                cli.throughput_scale_milli->0
            } else {
                file.simulation.throughput_scale_milli
            },
            cli.seed is Some ==> r.seed == cli.seed->0,
            cli.seed is None && file.simulation.seed is Some ==> r.seed == file.simulation.seed->0,
            r.control_enabled == if cli.control_enabled is Some {
                cli.control_enabled->0
            } else {
                file.control.enabled
            },
            r.control_bind@ == if cli.control_bind is Some {
                cli.control_bind->0@
            } else {
                file.control.bind@
            },
            r.config_path == config_path,
    {
        let seed: u64 = match cli.seed {
            Some(v) => v,
            None => match file.simulation.seed {
                Some(v) => v,
                None => crate::rng::random_seed(),
            },
        };
        AppConfig {
            config_path,
            scenario: match cli.scenario {
                Some(v) => v,
                None => file.simulation.scenario,
            },
            initial_price_cents: match cli.initial_price_cents {
                Some(v) => v,
                None => file.simulation.initial_price_cents,
            },
            tick_interval_ms: match cli.tick_interval_ms {
                Some(v) => v,
                None => file.simulation.tick_interval_ms,
            },
            tick_size_cents: match cli.tick_size_cents {
                Some(v) => v,
                None => file.simulation.tick_size_cents,
            },
            multicast_group: match &cli.multicast_group {
                Some(v) => v.clone(),
                None => file.network.multicast_group.clone(),
            },
            multicast_port: match cli.multicast_port {
                Some(v) => v,
                None => file.network.multicast_port,
            },
            wire_format: match cli.wire_format {
                Some(v) => v,
                None => file.network.wire_format,
            },
            size_mean_log_milli: file.orders.size_mean_log_milli,
            size_std_log_milli: file.orders.size_std_log_milli,
            ttl_min_ms: file.orders.ttl_min_ms,
            ttl_max_ms: file.orders.ttl_max_ms,
            shock_prob_ppb: match cli.shock_prob_ppb {
                Some(v) => v,
                None => file.shocks.probability_ppb,
            },
            shock_min_pct_ppb: file.shocks.min_pct_ppb,
            shock_max_pct_ppb: file.shocks.max_pct_ppb,
            output_mode: match cli.output_mode {
                Some(v) => v,
                None => file.output.mode,
            },
            log_file: match &cli.log_file {
                Some(v) => v.clone(),
                None => file.output.log_file.clone(),
            },
            display_interval_ms: match cli.display_interval_ms {
                Some(v) => v,
                None => file.output.display_interval_ms,
            },
            throughput_scale_milli: match cli.throughput_scale_milli {
                Some(v) => v,
                None => file.simulation.throughput_scale_milli,
            },
            seed,
            control_enabled: match cli.control_enabled {
                Some(v) => v,
                None => file.control.enabled,
            },
            control_bind: match &cli.control_bind {
                Some(v) => v.clone(),
                None => file.control.bind.clone(),
            },
        }
    }

    /// The engine configuration this resolved configuration stands for.
    pub fn engine_config(&self) -> (r: crate::engine::EngineConfig)
        ensures
            r.scenario == self.scenario,
            r.tick_ms == self.tick_interval_ms,
            r.tick_size_cents == self.tick_size_cents,
            r.initial_price_cents == self.initial_price_cents,
            r.shock_min_pct_ppb == self.shock_min_pct_ppb,
            r.shock_max_pct_ppb == self.shock_max_pct_ppb,
            r.ttl_min_ms == self.ttl_min_ms,
            r.ttl_max_ms == self.ttl_max_ms,
            r.throughput_scale_milli == self.throughput_scale_milli,
            r.display_interval_ms == self.display_interval_ms,
            r.shock_prob_ppb == self.shock_prob_ppb,
    {
        crate::engine::EngineConfig {
            scenario: self.scenario,
            tick_ms: self.tick_interval_ms,
            tick_size_cents: self.tick_size_cents,
            initial_price_cents: self.initial_price_cents,
            shock_min_pct_ppb: self.shock_min_pct_ppb,
            shock_max_pct_ppb: self.shock_max_pct_ppb,
            ttl_min_ms: self.ttl_min_ms,
            ttl_max_ms: self.ttl_max_ms,
            throughput_scale_milli: self.throughput_scale_milli,
            display_interval_ms: self.display_interval_ms,
            shock_prob_ppb: self.shock_prob_ppb,
        }
    }
}

} // verus!
