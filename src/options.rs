use vstd::prelude::*;
use crate::engine::Options;
use crate::format::Format;

verus! {

#[verifier::external_type_specification]
#[verifier::external_body]
pub struct ExPrettyConfig(ron::ser::PrettyConfig);

/// The RON pretty-printer's settings, with a model of the ones that this
/// library sets.
pub struct RonConfig {
    config: ron::ser::PrettyConfig,
    depth_limit: Ghost<usize>,
    decimal_floats: Ghost<bool>,
}

impl RonConfig {
    /// The depth up to which output is pretty-printed.
    pub closed spec fn depth_limit(&self) -> usize {
        self.depth_limit@
    }

    /// Whether whole-valued floats are written with a decimal point, so that
    /// they read back as floats.
    pub closed spec fn decimal_floats(&self) -> bool {
        self.decimal_floats@
    }

    /// The settings, to hand to the RON serializer.
    pub fn into_pretty_config(self) -> ron::ser::PrettyConfig {
        self.config
    }
}

/// Relies on `ron::ser::PrettyConfig::new`: the default settings, whose
/// depth limit is `!0` and which leave decimal floats off.
#[verifier::external_body]
fn pretty_config_new() -> (r: RonConfig)
    ensures
        r.depth_limit() == usize::MAX,
        !r.decimal_floats(),
{
    RonConfig { config: ron::ser::PrettyConfig::new(), depth_limit: Ghost(usize::MAX), decimal_floats: Ghost(false) }
}

/// Relies on `ron::ser::PrettyConfig::with_depth_limit`: the same settings
/// with pretty-printing limited to the given depth.
#[verifier::external_body]
fn pretty_config_with_depth_limit(c: RonConfig, depth_limit: usize) -> (r: RonConfig)
    ensures
        r.depth_limit() == depth_limit,
        r.decimal_floats() == c.decimal_floats(),
{
    RonConfig { config: c.config.with_depth_limit(depth_limit), depth_limit: Ghost(depth_limit), ..c }
}

/// Relies on `ron::ser::PrettyConfig::with_decimal_floats`: the same
/// settings with decimal floats switched as given.
#[verifier::external_body]
fn pretty_config_with_decimal_floats(c: RonConfig, decimal_floats: bool) -> (r: RonConfig)
    ensures
        r.depth_limit() == c.depth_limit(),
        r.decimal_floats() == decimal_floats,
{
    RonConfig { config: c.config.with_decimal_floats(decimal_floats), decimal_floats: Ghost(decimal_floats), ..c }
}

/// What a run is asked to do: the two format names and an optional limit on
/// the nesting depth.
#[derive(Debug, Clone)]
pub struct CmdLineOptions {
    pub depth_limit: Option<usize>,
    pub input_format: String,
    pub output_format: String,
}

impl CmdLineOptions {
    /// The RON pretty-printer's settings: the defaults, with the depth limit
    /// where one is given, and decimal floats on so that a float stays a
    /// float.
    pub fn to_ron_pretty_config(&self) -> (r: RonConfig)
        ensures
            r.depth_limit() == match self.depth_limit {
                Option::Some(d) => d,
                Option::None => usize::MAX,
            },
            r.decimal_floats(),
    {
        let pretty_config = pretty_config_new();
        let pretty_config = if let Option::Some(depth_limit) = self.depth_limit {
            pretty_config_with_depth_limit(pretty_config, depth_limit)
        } else {
            pretty_config
        };
        pretty_config_with_decimal_floats(pretty_config, true)
    }

    /// The engine settings for a target format: the requested depth limit,
    /// and struct names left out of the output.
    pub fn engine_options(&self, target: Format) -> (r: Options)
        ensures
            r == (Options { target, depth_limit: self.depth_limit, struct_names: false }),
    {
        Options { target, depth_limit: self.depth_limit, struct_names: false }
    }
}

} // verus!
