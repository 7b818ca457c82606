//! Where the generated stylesheet is written, as `tailwind.config.toml` sets it.
use vstd::prelude::*;

verus! {

/// The `[output]` table of `tailwind.config.toml`.
pub struct TomlOutput {
    pub path: Option<String>,
}

/// The parts of `tailwind.config.toml` that the gem reads.
pub struct TomlConfig {
    pub output: Option<TomlOutput>,
}

/// The gem's settings.
pub struct TailwindConfig {
    pub output_path: String,
}

/// Where the stylesheet goes when nothing else is set.
pub open spec fn default_output_path() -> Seq<char> {
    "assets/tailwind.css"@
}

impl Default for TailwindConfig {
    fn default() -> (r: TailwindConfig)
        ensures
            r.output_path@ == default_output_path(),
    {
        TailwindConfig { output_path: "assets/tailwind.css".to_string() }
    }
}

/// The output path a parsed configuration file sets, if it sets one.
pub open spec fn configured_path(config: Option<TomlConfig>) -> Option<Seq<char>> {
    match config {
        Some(c) => match c.output {
            Some(o) => match o.path {
                Some(p) => Some(p@),
                None => None,
            },
            None => None,
        },
        None => None,
    }
}

impl TailwindConfig {
    /// The settings given the configuration file as parsed, `None` when the
    /// file is missing, unreadable or not valid for this schema: the output
    /// path it sets, else the default one.
    pub fn from_toml(config: Option<TomlConfig>) -> (r: TailwindConfig)
        ensures
            r.output_path@ == match configured_path(config) {
                Some(p) => p,
                None => default_output_path(),
            },
    {
        match config {
            Some(c) => match c.output {
                Some(o) => match o.path {
                    Some(p) => TailwindConfig { output_path: p },
                    None => TailwindConfig::default(),
                },
                None => TailwindConfig::default(),
            },
            None => TailwindConfig::default(),
        }
    }
}

} // verus!
