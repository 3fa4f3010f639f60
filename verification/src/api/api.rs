//! The commands at the root of the application.

use vstd::prelude::*;
use vstd::string::StringExecFns;
use crate::api::{Api, Argument, ArgumentSpec, ArgumentView, Command, CommandView};
use crate::inspect::Inspect;

verus! {

/// The version of the application manager.
pub const VERSION: &'static str = "0.1.0";

/// The application manager as it runs on any machine: it tells its version
/// and inspects packages.
#[derive(Debug, Default, Clone, Copy)]
pub struct Portable;

impl Api for Portable {
    open spec fn declared(&self) -> CommandView {
        CommandView::named("Start9 Application Manager (portable)"@).with_version(
            VERSION@,
        ).with_arg(Verbosity.declared()).with_command(Semver.declared()).with_command(
            GitInfo.declared(),
        ).with_command(Inspect.declared())
    }

    fn command(&self) -> (res: Command) {
        Command::named("Start9 Application Manager (portable)").with_version(VERSION).with_arg(
            Verbosity.spec(),
        ).with_command(Semver.command()).with_command(GitInfo.command()).with_command(
            Inspect.command(),
        )
    }
}

/// The application manager as it runs on the machine that it manages.
#[derive(Debug, Default, Clone, Copy)]
pub struct Full;

impl Api for Full {
    open spec fn declared(&self) -> CommandView {
        CommandView::named("Start9 Application Manager"@).with_arg(
            Verbosity.declared(),
        ).with_command(Semver.declared()).with_command(GitInfo.declared()).with_command(
            Inspect.declared(),
        )
    }

    fn command(&self) -> (res: Command) {
        Command::named("Start9 Application Manager").with_arg(Verbosity.spec()).with_command(
            Semver.command(),
        ).with_command(GitInfo.command()).with_command(Inspect.command())
    }
}

/// The command that prints the version.
#[derive(Debug, Default, Clone, Copy)]
pub struct Semver;

impl Semver {
    /// The version that the command prints.
    pub fn version(&self) -> (res: &'static str)
        ensures
            res == VERSION,
    {
        VERSION
    }
}

impl Api for Semver {
    open spec fn declared(&self) -> CommandView {
        CommandView::named("semver"@).with_about("Prints semantic version and exits"@)
    }

    fn command(&self) -> (res: Command) {
        Command::named("semver").with_about("Prints semantic version and exits")
    }
}

/// The command that prints the revision that the application was built from.
#[derive(Debug, Default, Clone, Copy)]
pub struct GitInfo;

/// What the command prints for a revision: the revision, marked as a
/// development build unless this is a production build.
pub open spec fn git_info(revision: Seq<char>, production: bool) -> Seq<char> {
    if production {
        revision
    } else {
        revision + "-dev"@
    }
}

impl GitInfo {
    /// What the command prints for the revision that the build recorded.
    pub fn info(&self, revision: &str, production: bool) -> (res: String)
        ensures
            res@ == git_info(revision@, production),
    {
        if production {
            revision.to_owned()
        } else {
            revision.to_owned().concat("-dev")
        }
    }
}

impl Api for GitInfo {
    open spec fn declared(&self) -> CommandView {
        CommandView::named("git-info"@).with_about("Prints git version info and exits"@)
    }

    fn command(&self) -> (res: Command) {
        Command::named("git-info").with_about("Prints git version info and exits")
    }
}

/// The argument that asks for more logging; it counts.
#[derive(Debug, Default, Clone, Copy)]
pub struct Verbosity;

impl Argument for Verbosity {
    open spec fn declared(&self) -> ArgumentView {
        ArgumentView {
            short: Some("v"@),
            help: Some("Sets verbosity level"@),
            multiple: true,
            ..ArgumentView::named("verbosity"@)
        }
    }

    fn spec(&self) -> (res: ArgumentSpec) {
        let mut res = ArgumentSpec::named("verbosity");
        res.short = Some("v");
        res.help = Some("Sets verbosity level");
        res.multiple = true;
        res
    }
}

} // verus!
