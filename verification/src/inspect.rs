//! Looking into an application package: the commands, what they print, and
//! the checks on what the package holds.

use vstd::prelude::*;
use vstd::string::StringExecFns;
use crate::api::{Api, Argument, ArgumentSpec, ArgumentView, Command, CommandView};
use crate::config::rules::ConfigRuleEntry;
use crate::config::spec::ConfigSpec;
use crate::error::{Error, ErrorView, GENERAL_ERROR, NOT_FOUND, VERSION_INCOMPATIBLE};
use crate::manifest::ManifestV1;
use emver::{Version, VersionRange};

verus! {

/// The schema and the rules of an application's configuration.
#[derive(Debug, PartialEq)]
pub struct AppConfig {
    pub spec: ConfigSpec,
    pub rules: Vec<ConfigRuleEntry>,
}

/// What every package says of itself.
#[derive(Debug)]
pub struct AppInfo {
    pub title: String,
    pub version: Version,
}

/// What a package says of itself, with its manifest and its configuration
/// where they were asked for.
#[derive(Debug)]
pub struct AppInfoFull {
    pub info: AppInfo,
    pub manifest: Option<ManifestV1>,
    pub config: Option<AppConfig>,
}

/// A copy of a version is the version.
pub assume_specification[ <Version as Clone>::clone ](v: &Version) -> (res: Version)
    ensures
        res == *v,
;

/// `Version::satisfies`: whether the version lies in the range.
#[verifier::external_body]
fn version_satisfies(version: &Version, range: &VersionRange) -> bool {
    version.satisfies(range)
}

/// The range as text, as its `Display` writes it.
#[verifier::external_body]
fn range_text(range: &VersionRange) -> String {
    range.to_string()
}

/// What is reported of a package: the title and the version of its manifest,
/// the manifest itself if it was asked for, and the configuration that was read.
pub fn info_of(manifest: ManifestV1, with_manifest: bool, config: Option<AppConfig>) -> (res:
    AppInfoFull)
    ensures
        res.info.title@ == manifest.title@,
        res.info.version == manifest.version,
        res.manifest == if with_manifest {
            Some(manifest)
        } else {
            None
        },
        res.config == config,
{
    let info = AppInfo { title: manifest.title.clone(), version: manifest.version.clone() };
    AppInfoFull {
        info,
        manifest: if with_manifest {
            Some(manifest)
        } else {
            None
        },
        config,
    }
}

/// The files of a package, in the order in which the package holds them.
#[derive(Clone, Copy, Debug, PartialEq, Eq)]
pub enum Entry {
    Manifest,
    ConfigSpec,
    ConfigRules,
    Instructions,
}

impl Entry {
    /// The name under which the package holds the file, where it is checked.
    pub open spec fn spec_file_name(self) -> Option<Seq<char>> {
        match self {
            Entry::Manifest => Some("manifest.cbor"@),
            Entry::ConfigSpec => Some("config_spec.cbor"@),
            Entry::ConfigRules => Some("config_rules.cbor"@),
            Entry::Instructions => None,
        }
    }

    /// What is said of the file when the package ends before it.
    pub open spec fn spec_missing(self) -> Seq<char> {
        match self {
            Entry::Manifest => "missing manifest"@,
            Entry::ConfigSpec => "missing config spec"@,
            Entry::ConfigRules => "missing config rules"@,
            Entry::Instructions => "missing instructions"@,
        }
    }

    /// The name under which the package holds the file, where it is checked:
    /// the instructions may have any name.
    pub fn file_name(&self) -> (res: Option<&'static str>)
        ensures
            match res {
                Some(n) => self.spec_file_name() == Some(n@),
                None => self.spec_file_name() is None,
            },
    {
        match self {
            Entry::Manifest => Some("manifest.cbor"),
            Entry::ConfigSpec => Some("config_spec.cbor"),
            Entry::ConfigRules => Some("config_rules.cbor"),
            Entry::Instructions => None,
        }
    }

    /// What is said of the file when the package ends before it.
    pub fn missing(&self) -> (res: &'static str)
        ensures
            res@ == self.spec_missing(),
    {
        match self {
            Entry::Manifest => "missing manifest",
            Entry::ConfigSpec => "missing config spec",
            Entry::ConfigRules => "missing config rules",
            Entry::Instructions => "missing instructions",
        }
    }

    /// The file that follows this one in a package, if any.
    pub fn next(&self) -> (res: Option<Entry>)
        ensures
            res == match *self {
                Entry::Manifest => Some(Entry::ConfigSpec),
                Entry::ConfigSpec => Some(Entry::ConfigRules),
                Entry::ConfigRules => Some(Entry::Instructions),
                Entry::Instructions => None,
            },
    {
        match self {
            Entry::Manifest => Some(Entry::ConfigSpec),
            Entry::ConfigSpec => Some(Entry::ConfigRules),
            Entry::ConfigRules => Some(Entry::Instructions),
            Entry::Instructions => None,
        }
    }
}

/// The verdict on the file that a package holds where `expected` is due:
/// `found` is the name of the file there, or none if the package has ended.
pub open spec fn entry_verdict(expected: Entry, found: Option<Seq<char>>) -> Result<
    (),
    ErrorView,
> {
    match found {
        None => Err(
            ErrorView {
                message: "Package File Invalid or Corrupted: "@ + expected.spec_missing(),
                code: GENERAL_ERROR as int,
            },
        ),
        Some(name) => match expected.spec_file_name() {
            Some(n) => if name == n {
                Ok(())
            } else {
                Err(
                    ErrorView {
                        message: "Package File Invalid or Corrupted"@,
                        code: GENERAL_ERROR as int,
                    },
                )
            },
            None => Ok(()),
        },
    }
}

/// The model of the outcome of a check.
pub open spec fn checked(res: Result<(), Error>) -> Result<(), ErrorView> {
    match res {
        Ok(_) => Ok(()),
        Err(e) => Err(e@),
    }
}

/// Checks the file that a package holds where `expected` is due. A package
/// that has ended lacks the file; a file of another name than the one that is
/// due shows a package that is invalid or corrupted.
pub fn check_entry(expected: Entry, found: Option<&str>) -> (res: Result<(), Error>)
    ensures
        checked(res) == entry_verdict(
            expected,
            match found {
                Some(n) => Some(n@),
                None => None,
            },
        ),
{
    match found {
        None => Err(
            Error::new(
                "Package File Invalid or Corrupted: ".to_owned().concat(expected.missing()),
                GENERAL_ERROR,
            ),
        ),
        Some(name) => match expected.file_name() {
            Some(n) => if *name == *n {
                Ok(())
            } else {
                Err(Error::new("Package File Invalid or Corrupted".to_owned(), GENERAL_ERROR))
            },
            None => Ok(()),
        },
    }
}

/// The verdict on a package that needs the versions `needs` of the
/// application manager, where `satisfied` says whether this one is among them.
pub open spec fn compatibility(satisfied: bool, needs: Seq<char>) -> Result<(), ErrorView> {
    if satisfied {
        Ok(())
    } else {
        Err(
            ErrorView {
                message: "AppMgr Version Not Compatible: needs "@ + needs,
                code: VERSION_INCOMPATIBLE as int,
            },
        )
    }
}

/// Checks that the application manager is of a version that the package can
/// do with.
pub fn check_compatible(satisfied: bool, needs: &str) -> (res: Result<(), Error>)
    ensures
        checked(res) == compatibility(satisfied, needs@),
{
    if satisfied {
        Ok(())
    } else {
        Err(
            Error::new(
                "AppMgr Version Not Compatible: needs ".to_owned().concat(needs),
                VERSION_INCOMPATIBLE,
            ),
        )
    }
}

/// Checks that the application manager, which is of the version `current`,
/// is of a version that the package needs. Whether it is, and how the needed
/// versions are written, is for the version range to say: see
/// [`check_compatible`] for what follows from that.
pub fn check_version(current: &Version, manifest: &ManifestV1) -> (res: Result<(), Error>)
    ensures
        exists|satisfied: bool, needs: Seq<char>|
            checked(res) == compatibility(satisfied, needs),
{
    let satisfied = version_satisfies(current, &manifest.os_version_required);
    let needs = range_text(&manifest.os_version_required);
    let res = check_compatible(satisfied, needs.as_str());
    proof {
        assert(checked(res) == compatibility(satisfied, needs@));
    }
    res
}

/// The verdict on a request for the instructions of the package at `path`.
pub open spec fn instructions_verdict(has_instructions: bool, path: Seq<char>) -> Result<
    (),
    ErrorView,
> {
    if has_instructions {
        Ok(())
    } else {
        Err(ErrorView { message: "No instructions for "@ + path, code: NOT_FOUND as int })
    }
}

/// Checks that the package at `path` has instructions to print.
pub fn check_instructions(has_instructions: bool, path: &str) -> (res: Result<(), Error>)
    ensures
        checked(res) == instructions_verdict(has_instructions, path@),
{
    if has_instructions {
        Ok(())
    } else {
        Err(Error::new("No instructions for ".to_owned().concat(path), NOT_FOUND))
    }
}

/// The form in which information is printed.
#[derive(Clone, Copy, Debug, PartialEq, Eq)]
pub enum Format {
    Json,
    JsonPretty,
    Yaml,
}

/// The part of the information that is printed.
#[derive(Clone, Copy, Debug, PartialEq, Eq)]
pub enum Part {
    Manifest,
    Config,
    All,
}

/// What the command line asks of `info`.
#[derive(Clone, Copy, Debug, PartialEq, Eq)]
pub struct InfoFlags {
    pub json: bool,
    pub pretty: bool,
    pub yaml: bool,
    pub include_manifest: bool,
    pub include_config: bool,
    pub only_manifest: bool,
    pub only_config: bool,
}

impl InfoFlags {
    /// Whether the manifest is read: it is if it is included or printed alone.
    pub open spec fn spec_with_manifest(self) -> bool {
        self.include_manifest || self.only_manifest
    }

    /// Whether the configuration is read: it is if it is included or printed alone.
    pub open spec fn spec_with_config(self) -> bool {
        self.include_config || self.only_config
    }

    /// What is printed, and how: as JSON if that is asked for, pretty or
    /// not, else as YAML if that is asked for, else nothing; the manifest
    /// alone if that is asked for, else the configuration alone if that is
    /// asked for, else everything.
    pub open spec fn spec_output(self) -> Option<(Format, Part)> {
        let part = if self.only_manifest {
            Part::Manifest
        } else if self.only_config {
            Part::Config
        } else {
            Part::All
        };
        if self.json {
            Some(
                (
                    if self.pretty {
                        Format::JsonPretty
                    } else {
                        Format::Json
                    },
                    part,
                ),
            )
        } else if self.yaml {
            Some((Format::Yaml, part))
        } else {
            None
        }
    }

    /// Whether the manifest is read.
    pub fn with_manifest(&self) -> (res: bool)
        ensures
            res == self.spec_with_manifest(),
    {
        self.include_manifest || self.only_manifest
    }

    /// Whether the configuration is read.
    pub fn with_config(&self) -> (res: bool)
        ensures
            res == self.spec_with_config(),
    {
        self.include_config || self.only_config
    }

    /// What is printed, and how.
    pub fn output(&self) -> (res: Option<(Format, Part)>)
        ensures
            res == self.spec_output(),
    {
        let part = if self.only_manifest {
            Part::Manifest
        } else if self.only_config {
            Part::Config
        } else {
            Part::All
        };
        if self.json {
            Some(
                (
                    if self.pretty {
                        Format::JsonPretty
                    } else {
                        Format::Json
                    },
                    part,
                ),
            )
        } else if self.yaml {
            Some((Format::Yaml, part))
        } else {
            None
        }
    }
}

/// The path of the package to inspect.
#[derive(Debug, Default, Clone, Copy)]
pub struct Path;

impl Argument for Path {
    open spec fn declared(&self) -> ArgumentView {
        ArgumentView {
            help: Some("Path to the s9pk file to inspect"@),
            required: true,
            ..ArgumentView::named("PATH"@)
        }
    }

    fn spec(&self) -> (res: ArgumentSpec) {
        let mut res = ArgumentSpec::named("PATH");
        res.help = Some("Path to the s9pk file to inspect");
        res.required = true;
        res
    }
}

/// Print as JSON.
#[derive(Debug, Default, Clone, Copy)]
pub struct Json;

impl Argument for Json {
    open spec fn declared(&self) -> ArgumentView {
        ArgumentView {
            conflicts_with: seq!["yaml"@],
            required_unless: Some("yaml"@),
            long: Some("json"@),
            short: Some("j"@),
            help: Some("Output as JSON"@),
            ..ArgumentView::named("json"@)
        }
    }

    fn spec(&self) -> (res: ArgumentSpec) {
        let mut res = ArgumentSpec::named("json");
        res.conflicts_with = &["yaml"];
        res.required_unless = Some("yaml");
        res.long = Some("json");
        res.short = Some("j");
        res.help = Some("Output as JSON");
        proof {
            assert(res@.conflicts_with =~= seq!["yaml"@]);
        }
        res
    }
}

/// Print JSON on several lines.
#[derive(Debug, Default, Clone, Copy)]
pub struct Pretty;

impl Argument for Pretty {
    open spec fn declared(&self) -> ArgumentView {
        ArgumentView {
            requires_argument: Some("json"@),
            long: Some("pretty"@),
            short: Some("p"@),
            help: Some("Pretty print output"@),
            ..ArgumentView::named("pretty"@)
        }
    }

    fn spec(&self) -> (res: ArgumentSpec) {
        let mut res = ArgumentSpec::named("pretty");
        res.requires_argument = Some("json");
        res.long = Some("pretty");
        res.short = Some("p");
        res.help = Some("Pretty print output");
        res
    }
}

/// Print as YAML.
#[derive(Debug, Default, Clone, Copy)]
pub struct Yaml;

impl Argument for Yaml {
    open spec fn declared(&self) -> ArgumentView {
        ArgumentView {
            conflicts_with: seq!["json"@],
            required_unless: Some("json"@),
            long: Some("yaml"@),
            short: Some("y"@),
            help: Some("Output as YAML"@),
            ..ArgumentView::named("yaml"@)
        }
    }

    fn spec(&self) -> (res: ArgumentSpec) {
        let mut res = ArgumentSpec::named("yaml");
        res.conflicts_with = &["json"];
        res.required_unless = Some("json");
        res.long = Some("yaml");
        res.short = Some("y");
        res.help = Some("Output as YAML");
        proof {
            assert(res@.conflicts_with =~= seq!["json"@]);
        }
        res
    }
}

/// Print the manifest too.
#[derive(Debug, Default, Clone, Copy)]
pub struct IncludeManifest;

impl Argument for IncludeManifest {
    open spec fn declared(&self) -> ArgumentView {
        ArgumentView {
            conflicts_with: seq!["only-manifest"@, "only-config"@],
            long: Some("include-manifest"@),
            short: Some("m"@),
            ..ArgumentView::named("include-manifest"@)
        }
    }

    fn spec(&self) -> (res: ArgumentSpec) {
        let mut res = ArgumentSpec::named("include-manifest");
        res.conflicts_with = &["only-manifest", "only-config"];
        res.long = Some("include-manifest");
        res.short = Some("m");
        proof {
            assert(res@.conflicts_with =~= seq!["only-manifest"@, "only-config"@]);
        }
        res
    }
}

/// Print the configuration too.
#[derive(Debug, Default, Clone, Copy)]
pub struct IncludeConfig;

impl Argument for IncludeConfig {
    open spec fn declared(&self) -> ArgumentView {
        ArgumentView {
            conflicts_with: seq!["only-manifest"@, "only-config"@],
            long: Some("include-config"@),
            short: Some("c"@),
            ..ArgumentView::named("include-config"@)
        }
    }

    fn spec(&self) -> (res: ArgumentSpec) {
        let mut res = ArgumentSpec::named("include-config");
        res.conflicts_with = &["only-manifest", "only-config"];
        res.long = Some("include-config");
        res.short = Some("c");
        proof {
            assert(res@.conflicts_with =~= seq!["only-manifest"@, "only-config"@]);
        }
        res
    }
}

/// Print the manifest and nothing else.
#[derive(Debug, Default, Clone, Copy)]
pub struct OnlyManifest;

impl Argument for OnlyManifest {
    open spec fn declared(&self) -> ArgumentView {
        ArgumentView {
            conflicts_with: seq!["include-manifest"@, "include-config"@, "only-config"@],
            long: Some("only-manifest"@),
            short: Some("M"@),
            ..ArgumentView::named("only-manifest"@)
        }
    }

    fn spec(&self) -> (res: ArgumentSpec) {
        let mut res = ArgumentSpec::named("only-manifest");
        res.conflicts_with = &["include-manifest", "include-config", "only-config"];
        res.long = Some("only-manifest");
        res.short = Some("M");
        proof {
            assert(res@.conflicts_with =~= seq!["include-manifest"@, "include-config"@, "only-config"@]);
        }
        res
    }
}

/// Print the configuration and nothing else.
#[derive(Debug, Default, Clone, Copy)]
pub struct OnlyConfig;

impl Argument for OnlyConfig {
    open spec fn declared(&self) -> ArgumentView {
        ArgumentView {
            conflicts_with: seq!["include-manifest"@, "include-config"@, "only-manifest"@],
            long: Some("only-config"@),
            short: Some("C"@),
            ..ArgumentView::named("only-config"@)
        }
    }

    fn spec(&self) -> (res: ArgumentSpec) {
        let mut res = ArgumentSpec::named("only-config");
        res.conflicts_with = &["include-manifest", "include-config", "only-manifest"];
        res.long = Some("only-config");
        res.short = Some("C");
        proof {
            assert(res@.conflicts_with =~= seq!["include-manifest"@, "include-config"@, "only-manifest"@]);
        }
        res
    }
}

/// The command that prints information about a package.
#[derive(Debug, Default, Clone, Copy)]
pub struct Info;

impl Api for Info {
    open spec fn declared(&self) -> CommandView {
        CommandView::named("info"@).with_about(
            "Prints information about an application package"@,
        ).with_arg(Path.declared()).with_arg(Json.declared()).with_arg(Pretty.declared()).with_arg(
            Yaml.declared(),
        ).with_arg(IncludeManifest.declared()).with_arg(IncludeConfig.declared()).with_arg(
            OnlyManifest.declared(),
        ).with_arg(OnlyConfig.declared())
    }

    fn command(&self) -> (res: Command) {
        Command::named("info").with_about(
            "Prints information about an application package",
        ).with_arg(Path.spec()).with_arg(Json.spec()).with_arg(Pretty.spec()).with_arg(
            Yaml.spec(),
        ).with_arg(IncludeManifest.spec()).with_arg(IncludeConfig.spec()).with_arg(
            OnlyManifest.spec(),
        ).with_arg(OnlyConfig.spec())
    }
}

/// The command that prints the instructions of a package.
#[derive(Debug, Default, Clone, Copy)]
pub struct Instructions;

impl Api for Instructions {
    open spec fn declared(&self) -> CommandView {
        CommandView::named("instructions"@).with_about(
            "Prints instructions for an application package"@,
        ).with_arg(Path.declared())
    }

    fn command(&self) -> (res: Command) {
        Command::named("instructions").with_about(
            "Prints instructions for an application package",
        ).with_arg(Path.spec())
    }
}

/// The command that inspects a package; its subcommands do the work.
#[derive(Debug, Default, Clone, Copy)]
pub struct Inspect;

impl Api for Inspect {
    open spec fn declared(&self) -> CommandView {
        CommandView::named("inspect"@).with_about(
            "Inspects an application package"@,
        ).with_command(Info.declared()).with_command(Instructions.declared())
    }

    fn command(&self) -> (res: Command) {
        Command::named("inspect").with_about("Inspects an application package").with_command(
            Info.command(),
        ).with_command(Instructions.command())
    }
}

} // verus!
