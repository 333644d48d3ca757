//! What the user and the host ask the panel to be.

use std::path::PathBuf;
use vstd::prelude::*;

verus! {

/// A path of the file system, carried through as it is.
#[verifier::external_type_specification]
#[verifier::external_body]
pub struct ExPathBuf(PathBuf);

/// The screen edge a panel is pinned to.
#[derive(Debug, Clone, Copy, PartialEq, Eq, Structural)]
pub enum Anchor {
    Top,
    Bottom,
}

/// The panel as the host asked for it. Nothing in it changes after
/// construction.
#[derive(Debug, Clone)]
pub struct BarConfig {
    position: Anchor,
    width: u32,
    height: u32,
    layer_name: String,
}

impl BarConfig {
    pub closed spec fn spec_position(&self) -> Anchor {
        self.position
    }

    pub closed spec fn spec_width(&self) -> u32 {
        self.width
    }

    pub closed spec fn spec_height(&self) -> u32 {
        self.height
    }

    pub closed spec fn spec_layer_name(&self) -> Seq<char> {
        self.layer_name@
    }

    pub fn new(position: Anchor, layer_name: &str, width: u32, height: u32) -> (config: Self)
        ensures
            config.spec_position() == position,
            config.spec_layer_name() == layer_name@,
            config.spec_width() == width,
            config.spec_height() == height,
    {
        BarConfig { position, width, height, layer_name: layer_name.to_owned() }
    }

    /// The edge the panel is pinned to.
    #[verifier::when_used_as_spec(spec_position)]
    pub fn position(&self) -> (position: Anchor)
        ensures
            position == self.spec_position(),
    {
        self.position
    }

    /// The width asked for, in pixels.
    #[verifier::when_used_as_spec(spec_width)]
    pub fn width(&self) -> (width: u32)
        ensures
            width == self.spec_width(),
    {
        self.width
    }

    /// The height asked for, in pixels: the thickness of the panel.
    #[verifier::when_used_as_spec(spec_height)]
    pub fn height(&self) -> (height: u32)
        ensures
            height == self.spec_height(),
    {
        self.height
    }

    /// The name under which the panel's surfaces are known to the shell.
    pub fn layer_name(&self) -> (name: &str)
        ensures
            name@ == self.spec_layer_name(),
    {
        self.layer_name.as_str()
    }
}

/// A span of time: whole seconds and the nanoseconds beyond them.
#[derive(Debug, Clone, Copy, PartialEq, Eq, Structural)]
pub struct Period {
    pub secs: u64,
    pub nanos: u32,
}

/// When a script is run again.
#[derive(Debug, Clone, Copy, PartialEq, Eq, Structural)]
pub enum Refresh {
    /// Again and again, with the given span in between.
    Continous(Period),
    /// Once and never again.
    Never,
}

/// A command whose output the panel shows.
#[derive(Debug, Clone)]
pub struct Script {
    pub update: Refresh,
    pub script: String,
}

/// A script under the name by which the renderer asks for it.
#[derive(Debug, Clone)]
pub struct NamedScript {
    pub name: String,
    pub script: Script,
}

/// What the configuration file holds.
#[derive(Debug, Clone)]
pub struct ConfigFile {
    pub anchor: Anchor,
    pub layer_name: String,
    pub scripts: Vec<NamedScript>,
}

/// The configuration of the program.
#[derive(Debug)]
pub struct Config {
    pub anchor: Anchor,
    pub config_path: PathBuf,
    pub layer_name: String,
    pub scripts: Vec<NamedScript>,
}

/// What is to be done about the configuration file.
#[derive(Debug, Clone, Copy, PartialEq, Eq, Structural)]
pub enum ConfigPlan {
    /// The file is there: read it.
    Read,
    /// The file the user named is not there: give up.
    Missing,
    /// The file at the usual place is not there: write the defaults to it
    /// and go by them.
    CreateDefault,
}

/// No two scripts have the same name.
pub open spec fn distinct_names(scripts: Seq<NamedScript>) -> bool {
    forall|i: int, j: int|
        0 <= i < j < scripts.len() ==> (#[trigger] scripts[i]).name@ != (#[trigger] scripts[j]).name@
}

impl Period {
    /// The nanoseconds are less than a second.
    pub open spec fn wf(self) -> bool {
        self.nanos < 1_000_000_000
    }

    /// A span of whole seconds.
    pub fn from_secs(secs: u64) -> (period: Self)
        ensures
            period == (Period { secs, nanos: 0 }),
            period.wf(),
    {
        Period { secs, nanos: 0 }
    }
}

impl Script {
    /// The script of the default configuration: the date, every ten seconds.
    pub fn example() -> (script: Self)
        ensures
            script.script@ == "date"@,
            script.update == Refresh::Continous(Period { secs: 10, nanos: 0 }),
    {
        Script { script: "date".to_owned(), update: Refresh::Continous(Period::from_secs(10)) }
    }
}

impl ConfigFile {
    pub open spec fn wf(&self) -> bool {
        distinct_names(self.scripts@)
    }
}

impl Default for ConfigFile {
    /// The defaults: pinned to the top, under the program's name, with the
    /// example script.
    fn default() -> (file: Self)
        ensures
            file.anchor == Anchor::Top,
            file.layer_name@ == "embargo"@,
            file.scripts@.len() == 1,
            file.scripts@[0].name@ == "example_date"@,
            file.scripts@[0].script.script@ == "date"@,
            file.scripts@[0].script.update == Refresh::Continous(Period { secs: 10, nanos: 0 }),
            file.wf(),
    {
        let mut scripts: Vec<NamedScript> = Vec::new();
        scripts.push(NamedScript { name: "example_date".to_owned(), script: Script::example() });
        ConfigFile { layer_name: "embargo".to_owned(), anchor: Anchor::Top, scripts }
    }
}

impl Config {
    pub open spec fn wf(&self) -> bool {
        distinct_names(self.scripts@)
    }

    /// The plan that follows from whether the file is there and whether its
    /// place is the usual one.
    pub open spec fn spec_plan(exists: bool, is_default_path: bool) -> ConfigPlan {
        if exists {
            ConfigPlan::Read
        } else if is_default_path {
            ConfigPlan::CreateDefault
        } else {
            ConfigPlan::Missing
        }
    }

    /// What is to be done about the configuration file.
    pub fn plan(exists: bool, is_default_path: bool) -> (plan: ConfigPlan)
        ensures
            plan == Config::spec_plan(exists, is_default_path),
    {
        if exists {
            ConfigPlan::Read
        } else if is_default_path {
            ConfigPlan::CreateDefault
        } else {
            ConfigPlan::Missing
        }
    }

    /// The configuration that the file at the given path holds.
    pub fn from_file(config_path: PathBuf, file: ConfigFile) -> (config: Self)
        ensures
            config.config_path == config_path,
            config.anchor == file.anchor,
            config.layer_name == file.layer_name,
            config.scripts == file.scripts,
            file.wf() ==> config.wf(),
    {
        Config {
            config_path,
            layer_name: file.layer_name,
            scripts: file.scripts,
            anchor: file.anchor,
        }
    }
}

} // verus!
