//! Skill manifests: what a skill is, its profiles, runtimes and databases.
use vstd::prelude::*;

verus! {

/// A skill manifest.
#[derive(Debug, Clone, PartialEq, Eq)]
pub struct SkillManifest {
    pub schema_version: u32,
    pub skill: SkillMetadata,
    pub defaults: SkillDefaults,
    pub profiles: Vec<SkillProfileManifest>,
}

/// The name, version and description of a skill.
#[derive(Debug, Clone, PartialEq, Eq)]
pub struct SkillMetadata {
    pub name: String,
    pub version: SkillVersion,
    pub description: String,
}

/// A skill version string.
#[derive(Debug, Clone, PartialEq, Eq, PartialOrd, Ord, Hash)]
pub struct SkillVersion(pub String);

impl SkillVersion {
    /// Wraps a version string.
    pub fn new(value: String) -> (r: Self)
        ensures
            r.0 == value,
    {
        SkillVersion(value)
    }

    /// The version as a string slice.
    pub fn as_str(&self) -> (r: &str)
        ensures
            r@ == self.0@,
    {
        self.0.as_str()
    }
}

impl SkillManifest {
    /// The databases of a profile: its own, or the skill's defaults when it
    /// declares none.
    pub fn databases_for_profile<'a>(&'a self, profile: &'a SkillProfileManifest) -> (r: &'a [SkillDatabaseSpec])
        ensures
            r@ == if profile.databases@.len() == 0 {
                self.defaults.databases@
            } else {
                profile.databases@
            },
    {
        if profile.databases.len() == 0 {
            self.defaults.databases.as_slice()
        } else {
            profile.databases.as_slice()
        }
    }
}

/// What a profile falls back to.
#[derive(Debug, Clone, PartialEq, Eq)]
pub struct SkillDefaults {
    pub instructions: Option<SkillInstructionsSpec>,
    pub databases: Vec<SkillDatabaseSpec>,
}

impl Default for SkillDefaults {
    fn default() -> (r: Self)
        ensures
            r.instructions is None,
            r.databases@.len() == 0,
    {
        SkillDefaults { instructions: None, databases: Vec::new() }
    }
}

/// Where a skill's instructions come from.
#[derive(Debug, Clone, PartialEq, Eq)]
pub struct SkillInstructionsSpec {
    pub source: String,
}

/// A database a skill uses.
#[derive(Debug, Clone, PartialEq, Eq)]
pub struct SkillDatabaseSpec {
    pub name: String,
    pub engine: String,
    pub migrations: Option<SkillDatabaseMigrationsSpec>,
    pub seeds: Option<SkillDatabaseSeedsSpec>,
    pub on_load: Option<String>,
}

/// Where a database's migrations are.
#[derive(Debug, Clone, PartialEq, Eq)]
pub struct SkillDatabaseMigrationsSpec {
    pub dir: String,
    pub table: Option<String>,
}

/// Where a database's seed data is.
#[derive(Debug, Clone, PartialEq, Eq)]
pub struct SkillDatabaseSeedsSpec {
    pub dir: String,
    pub default: Option<String>,
}

/// A profile: one way of running the skill.
#[derive(Debug, Clone, PartialEq, Eq)]
pub struct SkillProfileManifest {
    pub name: String,
    pub default: bool,
    pub runtime: SkillRuntimeManifest,
    pub capabilities: Vec<String>,
    pub databases: Vec<SkillDatabaseSpec>,
}

/// The runtime a profile uses.
#[derive(Debug, Clone, PartialEq, Eq)]
pub struct SkillRuntimeManifest {
    pub kind: SkillRuntimeKind,
    pub wasm: Option<WasmSkillRuntimeSpec>,
}

/// The kind of a runtime, such as `wasm-component`.
#[derive(Debug, Clone, PartialEq, Eq, PartialOrd, Ord, Hash)]
pub struct SkillRuntimeKind(pub String);

impl SkillRuntimeKind {
    /// Wraps a runtime kind.
    pub fn new(value: String) -> (r: Self)
        ensures
            r.0 == value,
    {
        SkillRuntimeKind(value)
    }

    /// The kind as a string slice.
    pub fn as_str(&self) -> (r: &str)
        ensures
            r@ == self.0@,
    {
        self.0.as_str()
    }
}

/// A wasm component runtime: its interface, artifacts and build.
#[derive(Debug, Clone, PartialEq, Eq)]
pub struct WasmSkillRuntimeSpec {
    pub wit: WasmSkillInterfaceSpec,
    pub artifacts: SkillRuntimeArtifactSpec,
    pub build: Option<WasmSkillBuildSpec>,
}

/// Where a component's interface is and which world it implements.
#[derive(Debug, Clone, PartialEq, Eq)]
pub struct WasmSkillInterfaceSpec {
    pub path: String,
    pub world: String,
}

/// Where built artifacts go.
#[derive(Debug, Clone, PartialEq, Eq)]
pub struct SkillRuntimeArtifactSpec {
    pub dir: String,
}

/// How a component is built.
#[derive(Debug, Clone, PartialEq, Eq)]
pub struct WasmSkillBuildSpec {
    pub tool: String,
    pub module: String,
}

/// How a skill is built.
#[derive(Debug, Clone, PartialEq, Eq)]
pub struct SkillBuildSpec {
    pub tool: String,
    pub module: String,
}

/// A short description of an installed skill.
#[derive(Debug, Clone, PartialEq, Eq)]
pub struct SkillDescription {
    pub name: String,
    pub version: SkillVersion,
    pub profile_count: usize,
}

} // verus!
