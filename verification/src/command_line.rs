//! The options of an invocation, as plain values.

use vstd::prelude::*;
use vstd::string::*;
use crate::configurations::{BuildConfiguration, BuildType, CXXStandard, Sanitizer};

verus! {

/// The directory of the manifest, as a canonical path.
#[derive(Debug, PartialEq, Eq, Clone)]
pub struct ManifestDirectory(String);

/// The directory into which everything is generated.
#[derive(Debug, PartialEq, Eq, Clone)]
pub struct BuildDirectory(String);

/// The configuration that the command line selects.
#[derive(Debug, PartialEq, Eq, Clone)]
pub struct ConfigurationOpts {
    pub build_type: BuildType,
    pub cxx_standard: CXXStandard,
    pub sanitizer: Option<Sanitizer>,
}

/// The options of a build.
#[derive(Debug, PartialEq, Eq, Clone)]
pub struct BuildOpts {
    pub manifest_dir: ManifestDirectory,
    pub configuration: ConfigurationOpts,
    /// The number of jobs that the build executor may run at once.
    pub jobs: u8,
    pub build_directory: BuildDirectory,
    /// Whether to write the graph of the targets and stop.
    pub create_dottie_graph: bool,
    pub verbose: bool,
    /// What follows `--`: handed to the build executor as it stands.
    pub make_args: Vec<String>,
}

/// The options of a repeated build.
#[derive(Debug, PartialEq, Eq, Clone)]
pub struct RemakeOpts {
    pub build_directory: BuildDirectory,
}

/// What an invocation is asked to do.
#[derive(Debug, PartialEq, Eq, Clone)]
pub enum Subcommand {
    /// Build the project that the manifest describes.
    Build(BuildOpts),
    /// Repeat the last invocation recorded in a build directory.
    Remake(RemakeOpts),
}

/// The command line.
#[derive(Debug, PartialEq, Eq, Clone)]
pub struct CommandLine {
    pub subcommand: Option<Subcommand>,
}

impl View for ManifestDirectory {
    type V = Seq<char>;

    closed spec fn view(&self) -> Seq<char> {
        self.0@
    }
}

impl ManifestDirectory {
    /// The manifest directory at the canonical path `path`.
    pub fn new(path: &str) -> (r: ManifestDirectory)
        ensures
            r@ == path@,
    {
        ManifestDirectory(String::from_str(path))
    }

    pub fn as_path(&self) -> (r: &str)
        ensures
            r@ == self@,
    {
        self.0.as_str()
    }

    pub fn to_string(&self) -> (r: String)
        ensures
            r@ == self@,
    {
        self.0.clone()
    }
}

impl View for BuildDirectory {
    type V = Seq<char>;

    closed spec fn view(&self) -> Seq<char> {
        self.0@
    }
}

impl BuildDirectory {
    /// The build directory at `path`.
    pub fn new(path: &str) -> (r: BuildDirectory)
        ensures
            r@ == path@,
    {
        BuildDirectory(String::from_str(path))
    }

    pub fn as_path(&self) -> (r: &str)
        ensures
            r@ == self@,
    {
        self.0.as_str()
    }
}

impl ConfigurationOpts {
    /// The configuration of a build into `output_root`.
    pub fn configuration(&self, output_root: &str) -> (r: BuildConfiguration)
        ensures
            r.build_type == self.build_type,
            r.cxx_standard == self.cxx_standard,
            r.sanitizer == self.sanitizer,
            r.output_root@ == output_root@,
    {
        BuildConfiguration {
            build_type: self.build_type,
            cxx_standard: self.cxx_standard,
            sanitizer: self.sanitizer,
            output_root: String::from_str(output_root),
        }
    }
}

impl Default for ConfigurationOpts {
    fn default() -> (r: ConfigurationOpts)
        ensures
            r.build_type == BuildType::Debug,
            r.cxx_standard == CXXStandard::CXX20,
            r.sanitizer is None,
    {
        ConfigurationOpts { build_type: BuildType::Debug, cxx_standard: CXXStandard::CXX20, sanitizer: None }
    }
}

} // verus!
