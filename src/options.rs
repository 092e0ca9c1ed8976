//! The closed choices that configure a run.
use vstd::prelude::*;
use crate::text::same_text;

verus! {

/// Which block leaves the pool when the engine decides not to allocate.
#[derive(Debug, Clone, Copy, PartialEq, Eq, Structural)]
pub enum Policy {
    /// The most recently inserted block.
    Lifo,
    /// The least recently inserted block.
    Fifo,
    /// A block chosen uniformly by index.
    Random,
    /// The largest block; the earliest inserted among equals.
    BigFirst,
    /// The smallest block; the earliest inserted among equals.
    SmallFirst,
    /// No block; only expiry removes blocks.
    Never,
}

/// How an untrended block size is drawn between the configured bounds.
#[derive(Debug, Clone, Copy, PartialEq, Eq, Structural)]
pub enum Distribution {
    Uniform,
    Exp,
    Powerlaw,
}

/// How the nominal block size evolves from one allocation to the next.
#[derive(Debug, Clone, Copy, PartialEq, Eq, Structural)]
pub enum Trend {
    /// No trend: every size is drawn afresh from the distribution.
    Sampled,
    /// Sizes climb by the step and stay at the maximum.
    Grow,
    /// Sizes fall by the step and stay at the minimum.
    Shrink,
    /// Sizes climb by the step and restart at the minimum past the maximum.
    Saw,
}

/// How a configured list of sizes is used.
#[derive(Debug, Clone, Copy, PartialEq, Eq, Structural)]
pub enum SizeMode {
    /// Draw a list element directly.
    Exact,
    /// Snap the trend-driven size to the closest list element.
    Nearest,
}

/// How the lifetime of a new block is chosen.
#[derive(Debug, Clone, Copy, PartialEq, Eq, Structural)]
pub enum TTLMode {
    /// Blocks live until evicted.
    Off,
    /// Every block gets the same lifetime.
    Fixed,
    /// Lifetimes are drawn from a weighted list.
    List,
}

/// The policy that a command-line name selects.
pub open spec fn policy_named(s: Seq<char>) -> Option<Policy> {
    if s == "lifo"@ {
        Some(Policy::Lifo)
    } else if s == "fifo"@ {
        Some(Policy::Fifo)
    } else if s == "random"@ {
        Some(Policy::Random)
    } else if s == "big-first"@ {
        Some(Policy::BigFirst)
    } else if s == "small-first"@ {
        Some(Policy::SmallFirst)
    } else if s == "never"@ {
        Some(Policy::Never)
    } else {
        None
    }
}

/// The distribution that a command-line name selects.
pub open spec fn distribution_named(s: Seq<char>) -> Option<Distribution> {
    if s == "uniform"@ {
        Some(Distribution::Uniform)
    } else if s == "exp"@ {
        Some(Distribution::Exp)
    } else if s == "powerlaw"@ {
        Some(Distribution::Powerlaw)
    } else {
        None
    }
}

/// The trend that a command-line name selects.
pub open spec fn trend_named(s: Seq<char>) -> Option<Trend> {
    if s == "none"@ {
        Some(Trend::Sampled)
    } else if s == "grow"@ {
        Some(Trend::Grow)
    } else if s == "shrink"@ {
        Some(Trend::Shrink)
    } else if s == "saw"@ {
        Some(Trend::Saw)
    } else {
        None
    }
}

/// The size mode that a command-line name selects.
pub open spec fn size_mode_named(s: Seq<char>) -> Option<SizeMode> {
    if s == "exact"@ {
        Some(SizeMode::Exact)
    } else if s == "nearest"@ {
        Some(SizeMode::Nearest)
    } else {
        None
    }
}

/// The lifetime mode that a command-line name selects.
pub open spec fn ttl_mode_named(s: Seq<char>) -> Option<TTLMode> {
    if s == "off"@ {
        Some(TTLMode::Off)
    } else if s == "fixed"@ {
        Some(TTLMode::Fixed)
    } else if s == "list"@ {
        Some(TTLMode::List)
    } else {
        None
    }
}

impl Policy {
    /// The policy named `s`, if any.
    pub fn from_name(s: &str) -> (r: Option<Policy>)
        ensures
            r == policy_named(s@),
    {
        if same_text(s, "lifo") {
            Some(Policy::Lifo)
        } else if same_text(s, "fifo") {
            Some(Policy::Fifo)
        } else if same_text(s, "random") {
            Some(Policy::Random)
        } else if same_text(s, "big-first") {
            Some(Policy::BigFirst)
        } else if same_text(s, "small-first") {
            Some(Policy::SmallFirst)
        } else if same_text(s, "never") {
            Some(Policy::Never)
        } else {
            None
        }
    }
}

impl Distribution {
    /// The distribution named `s`, if any.
    pub fn from_name(s: &str) -> (r: Option<Distribution>)
        ensures
            r == distribution_named(s@),
    {
        if same_text(s, "uniform") {
            Some(Distribution::Uniform)
        } else if same_text(s, "exp") {
            Some(Distribution::Exp)
        } else if same_text(s, "powerlaw") {
            Some(Distribution::Powerlaw)
        } else {
            None
        }
    }
}

impl Trend {
    /// The trend named `s`, if any.
    pub fn from_name(s: &str) -> (r: Option<Trend>)
        ensures
            r == trend_named(s@),
    {
        if same_text(s, "none") {
            Some(Trend::Sampled)
        } else if same_text(s, "grow") {
            Some(Trend::Grow)
        } else if same_text(s, "shrink") {
            Some(Trend::Shrink)
        } else if same_text(s, "saw") {
            Some(Trend::Saw)
        } else {
            None
        }
    }
}

impl SizeMode {
    /// The size mode named `s`, if any.
    pub fn from_name(s: &str) -> (r: Option<SizeMode>)
        ensures
            r == size_mode_named(s@),
    {
        if same_text(s, "exact") {
            Some(SizeMode::Exact)
        } else if same_text(s, "nearest") {
            Some(SizeMode::Nearest)
        } else {
            None
        }
    }
}

impl TTLMode {
    /// The lifetime mode named `s`, if any.
    pub fn from_name(s: &str) -> (r: Option<TTLMode>)
        ensures
            r == ttl_mode_named(s@),
    {
        if same_text(s, "off") {
            Some(TTLMode::Off)
        } else if same_text(s, "fixed") {
            Some(TTLMode::Fixed)
        } else if same_text(s, "list") {
            Some(TTLMode::List)
        } else {
            None
        }
    }
}

impl std::str::FromStr for Policy {
    type Err = &'static str;

    fn from_str(s: &str) -> Result<Self, Self::Err> {
        match Policy::from_name(s) {
            Some(v) => Ok(v),
            None => Err("Unknown policy"),
        }
    }
}

impl std::str::FromStr for Distribution {
    type Err = &'static str;

    fn from_str(s: &str) -> Result<Self, Self::Err> {
        match Distribution::from_name(s) {
            Some(v) => Ok(v),
            None => Err("Unknown distribution"),
        }
    }
}

impl std::str::FromStr for Trend {
    type Err = &'static str;

    fn from_str(s: &str) -> Result<Self, Self::Err> {
        match Trend::from_name(s) {
            Some(v) => Ok(v),
            None => Err("Unknown trend"),
        }
    }
}

impl std::str::FromStr for SizeMode {
    type Err = &'static str;

    fn from_str(s: &str) -> Result<Self, Self::Err> {
        match SizeMode::from_name(s) {
            Some(v) => Ok(v),
            None => Err("Unknown size-mode"),
        }
    }
}

impl std::str::FromStr for TTLMode {
    type Err = &'static str;

    fn from_str(s: &str) -> Result<Self, Self::Err> {
        match TTLMode::from_name(s) {
            Some(v) => Ok(v),
            None => Err("Unknown ttl-mode"),
        }
    }
}

} // verus!
