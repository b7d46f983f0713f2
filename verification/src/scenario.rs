//! Scenario profiles: a named scenario picks the starting regime, an
//! optional forced event, and whether free Markov transitions are allowed.

use vstd::prelude::*;
use crate::regime::Regime;
use crate::text::str_eq;

verus! {

/// The named scenarios.
#[derive(Clone, Copy, Debug, PartialEq, Eq, Structural)]
pub enum Scenario {
    Normal,
    Crash,
    Volatile,
    FlashCrash,
    Rally,
}

impl Scenario {
    /// The scenario's display name.
    pub open spec fn spec_name(self) -> Seq<char> {
        match self {
            Scenario::Normal => "normal"@,
            Scenario::Crash => "crash"@,
            Scenario::Volatile => "volatile"@,
            Scenario::FlashCrash => "flash-crash"@,
            Scenario::Rally => "rally"@,
        }
    }

    pub fn name(self) -> (r: &'static str)
        ensures
            r@ == self.spec_name(),
    {
        match self {
            Scenario::Normal => "normal",
            Scenario::Crash => "crash",
            Scenario::Volatile => "volatile",
            Scenario::FlashCrash => "flash-crash",
            Scenario::Rally => "rally",
        }
    }
}

/// The scenario a name stands for, or `None`.
pub open spec fn spec_parse_scenario(s: Seq<char>) -> Option<Scenario> {
    if s == "normal"@ {
        Some(Scenario::Normal)
    } else if s == "crash"@ {
        Some(Scenario::Crash)
    } else if s == "volatile"@ {
        Some(Scenario::Volatile)
    } else if s == "flash-crash"@ {
        Some(Scenario::FlashCrash)
    } else if s == "rally"@ {
        Some(Scenario::Rally)
    } else {
        None
    }
}

/// Parse a scenario name.
pub fn parse_scenario(s: &str) -> (r: Option<Scenario>)
    ensures
        r == spec_parse_scenario(s@),
{
    if str_eq(s, "normal") {
        Some(Scenario::Normal)
    } else if str_eq(s, "crash") {
        Some(Scenario::Crash)
    } else if str_eq(s, "volatile") {
        Some(Scenario::Volatile)
    } else if str_eq(s, "flash-crash") {
        Some(Scenario::FlashCrash)
    } else if str_eq(s, "rally") {
        Some(Scenario::Rally)
    } else {
        None
    }
}

/// The profile a scenario resolves to.
#[derive(Clone, Copy, Debug, PartialEq, Eq, Structural)]
pub struct ScenarioConfig {
    pub starting_regime: Regime,
    /// Simulated time of the forced event in milliseconds, `None` when the
    /// scenario has no forced event.
    pub forced_event_time_ms: Option<u64>,
    pub forced_regime: Regime,
    pub allow_transitions: bool,
}

/// The fixed scenario table.
pub open spec fn spec_from_scenario(scenario: Scenario) -> ScenarioConfig {
    match scenario {
        Scenario::Normal => ScenarioConfig {
            starting_regime: Regime::Calm,
            forced_event_time_ms: None,
            forced_regime: Regime::Calm,
            allow_transitions: true,
        },
        Scenario::Crash => ScenarioConfig {
            starting_regime: Regime::Calm,
            forced_event_time_ms: Some(10_000),
            forced_regime: Regime::Crash,
            allow_transitions: true,
        },
        Scenario::Volatile => ScenarioConfig {
            starting_regime: Regime::Volatile,
            forced_event_time_ms: None,
            forced_regime: Regime::Volatile,
            allow_transitions: false,
        },
        Scenario::FlashCrash => ScenarioConfig {
            starting_regime: Regime::Calm,
            forced_event_time_ms: Some(8_000),
            forced_regime: Regime::Crash,
            allow_transitions: true,
        },
        Scenario::Rally => ScenarioConfig {
            starting_regime: Regime::Calm,
            forced_event_time_ms: Some(10_000),
            forced_regime: Regime::Rally,
            allow_transitions: true,
        },
    }
}

impl ScenarioConfig {
    /// Resolve a scenario to its profile.
    pub fn from_scenario(scenario: Scenario) -> (r: Self)
        ensures
            r == spec_from_scenario(scenario),
    {
        match scenario {
            Scenario::Normal => ScenarioConfig {
                starting_regime: Regime::Calm,
                forced_event_time_ms: None,
                forced_regime: Regime::Calm,
                allow_transitions: true,
            },
            Scenario::Crash => ScenarioConfig {
                starting_regime: Regime::Calm,
                forced_event_time_ms: Some(10_000),
                forced_regime: Regime::Crash,
                allow_transitions: true,
            },
            Scenario::Volatile => ScenarioConfig {
                starting_regime: Regime::Volatile,
                forced_event_time_ms: None,
                forced_regime: Regime::Volatile,
                allow_transitions: false,
            },
            Scenario::FlashCrash => ScenarioConfig {
                starting_regime: Regime::Calm,
                forced_event_time_ms: Some(8_000),
                forced_regime: Regime::Crash,
                allow_transitions: true,
            },
            Scenario::Rally => ScenarioConfig {
                starting_regime: Regime::Calm,
                forced_event_time_ms: Some(10_000),
                forced_regime: Regime::Rally,
                allow_transitions: true,
            },
        }
    }
}

} // verus!
