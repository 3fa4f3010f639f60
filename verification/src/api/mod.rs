//! Commands and their arguments, as they are declared to the command line and
//! to the HTTP interface.

use vstd::prelude::*;
use crate::api::arg_value::QueryMap;
use crate::api::hyper_helpers::{check_query, query_verdict, validation, QueryError};

pub mod api;
pub mod arg_value;
pub mod clap_helpers;
pub mod hyper_helpers;

verus! {

/// The characters of a text that may be absent.
pub open spec fn text_view(t: Option<&'static str>) -> Option<Seq<char>> {
    match t {
        Some(s) => Some(s@),
        None => None,
    }
}

/// The characters of each of the texts.
pub open spec fn texts_view(ts: Seq<&'static str>) -> Seq<Seq<char>> {
    Seq::new(ts.len(), |i: int| ts[i]@)
}

/// What an argument declares, as plain data.
#[derive(Clone, Copy, Debug, PartialEq, Eq)]
pub struct ArgumentSpec {
    pub name: &'static str,
    pub help: Option<&'static str>,
    pub short: Option<&'static str>,
    pub long: Option<&'static str>,
    pub default_value: Option<&'static str>,
    pub required: bool,
    pub takes_value: bool,
    pub multiple: bool,
    pub conflicts_with: &'static [&'static str],
    pub required_unless: Option<&'static str>,
    pub requires_argument: Option<&'static str>,
}

/// Mathematical model of an [`ArgumentSpec`].
pub struct ArgumentView {
    pub name: Seq<char>,
    pub help: Option<Seq<char>>,
    pub short: Option<Seq<char>>,
    pub long: Option<Seq<char>>,
    pub default_value: Option<Seq<char>>,
    pub required: bool,
    pub takes_value: bool,
    pub multiple: bool,
    pub conflicts_with: Seq<Seq<char>>,
    pub required_unless: Option<Seq<char>>,
    pub requires_argument: Option<Seq<char>>,
}

impl View for ArgumentSpec {
    type V = ArgumentView;

    open spec fn view(&self) -> ArgumentView {
        ArgumentView {
            name: self.name@,
            help: text_view(self.help),
            short: text_view(self.short),
            long: text_view(self.long),
            default_value: text_view(self.default_value),
            required: self.required,
            takes_value: self.takes_value,
            multiple: self.multiple,
            conflicts_with: texts_view(self.conflicts_with@),
            required_unless: text_view(self.required_unless),
            requires_argument: text_view(self.requires_argument),
        }
    }
}

impl ArgumentView {
    /// The argument of this name that declares nothing else: it is a flag
    /// that need not be given and is tied to no other argument.
    pub open spec fn named(name: Seq<char>) -> ArgumentView {
        ArgumentView {
            name,
            help: None,
            short: None,
            long: None,
            default_value: None,
            required: false,
            takes_value: false,
            multiple: false,
            conflicts_with: Seq::empty(),
            required_unless: None,
            requires_argument: None,
        }
    }
}

impl ArgumentSpec {
    /// The argument of this name that declares nothing else.
    pub fn named(name: &'static str) -> (res: ArgumentSpec)
        ensures
            res@ == ArgumentView::named(name@),
            res.name == name,
            res.conflicts_with@.len() == 0,
    {
        let res = ArgumentSpec {
            name,
            help: None,
            short: None,
            long: None,
            default_value: None,
            required: false,
            takes_value: false,
            multiple: false,
            conflicts_with: &[],
            required_unless: None,
            requires_argument: None,
        };
        proof {
            assert(res@.conflicts_with =~= Seq::<Seq<char>>::empty());
        }
        res
    }
}

/// One argument of a command. An argument says what it declares once, in
/// [`Argument::spec`]; the other methods read single declarations from that.
pub trait Argument {
    /// What the argument declares.
    spec fn declared(&self) -> ArgumentView;

    /// What the argument declares.
    fn spec(&self) -> (res: ArgumentSpec)
        ensures
            res@ == self.declared(),
    ;

    /// The name of the argument.
    fn name(&self) -> (res: &'static str)
        ensures
            res@ == self.declared().name,
    {
        self.spec().name
    }

    /// What the argument is for.
    fn help(&self) -> (res: Option<&'static str>)
        ensures
            text_view(res) == self.declared().help,
    {
        self.spec().help
    }

    /// The short form of the argument on the command line.
    fn short(&self) -> (res: Option<&'static str>)
        ensures
            text_view(res) == self.declared().short,
    {
        self.spec().short
    }

    /// The long form of the argument on the command line.
    fn long(&self) -> (res: Option<&'static str>)
        ensures
            text_view(res) == self.declared().long,
    {
        self.spec().long
    }

    /// The value of the argument where none is given.
    fn default_value(&self) -> (res: Option<&'static str>)
        ensures
            text_view(res) == self.declared().default_value,
    {
        self.spec().default_value
    }

    /// Whether the argument must be given.
    fn required(&self) -> (res: bool)
        ensures
            res == self.declared().required,
    {
        self.spec().required
    }

    /// Whether the argument takes a value.
    fn takes_value(&self) -> (res: bool)
        ensures
            res == self.declared().takes_value,
    {
        self.spec().takes_value
    }

    /// Whether the argument may be given several times.
    fn multiple(&self) -> (res: bool)
        ensures
            res == self.declared().multiple,
    {
        self.spec().multiple
    }

    /// The arguments that must not be given together with this one.
    fn conflicts_with(&self) -> (res: &'static [&'static str])
        ensures
            texts_view(res@) == self.declared().conflicts_with,
    {
        self.spec().conflicts_with
    }

    /// The argument that may be given in place of this one.
    fn required_unless(&self) -> (res: Option<&'static str>)
        ensures
            text_view(res) == self.declared().required_unless,
    {
        self.spec().required_unless
    }

    /// The argument that must be given together with this one.
    fn requires_argument(&self) -> (res: Option<&'static str>)
        ensures
            text_view(res) == self.declared().requires_argument,
    {
        self.spec().requires_argument
    }

    /// Validates a query against what the argument declares.
    fn hyper_validation(&self, query: &QueryMap) -> (res: Result<(), QueryError>)
        ensures
            validation(res) == query_verdict(self.declared(), *query),
    {
        let a = self.spec();
        check_query(&a, query)
    }
}

/// What the argument declares.
pub fn describe_argument<A: Argument + ?Sized>(arg: &A) -> (res: ArgumentSpec)
    ensures
        res@ == arg.declared(),
{
    arg.spec()
}

/// A command: what it declares of itself, its arguments, and its subcommands.
#[derive(Debug, PartialEq, Eq)]
pub struct Command {
    pub name: &'static str,
    pub about: Option<&'static str>,
    pub version: Option<&'static str>,
    pub author: Option<&'static str>,
    pub aliases: &'static [&'static str],
    pub args: Vec<ArgumentSpec>,
    pub commands: Vec<Command>,
}

/// Mathematical model of a [`Command`].
pub struct CommandView {
    pub name: Seq<char>,
    pub about: Option<Seq<char>>,
    pub version: Option<Seq<char>>,
    pub author: Option<Seq<char>>,
    pub aliases: Seq<Seq<char>>,
    pub args: Seq<ArgumentView>,
    pub commands: Seq<CommandView>,
}

/// The models of the arguments.
pub open spec fn args_view(args: Seq<ArgumentSpec>) -> Seq<ArgumentView> {
    Seq::new(args.len(), |i: int| args[i]@)
}

/// The model of a command, by recursion over its subcommands.
pub open spec fn command_view(c: Command) -> CommandView
    decreases c,
{
    CommandView {
        name: c.name@,
        about: text_view(c.about),
        version: text_view(c.version),
        author: text_view(c.author),
        aliases: texts_view(c.aliases@),
        args: args_view(c.args@),
        commands: Seq::new(
            c.commands.len() as nat,
            |i: int|
                if 0 <= i < c.commands.len() {
                    command_view(c.commands[i])
                } else {
                    CommandView::named(Seq::empty())
                },
        ),
    }
}

impl View for Command {
    type V = CommandView;

    open spec fn view(&self) -> CommandView {
        command_view(*self)
    }
}

/// The models of the commands.
pub open spec fn commands_view(commands: Seq<Command>) -> Seq<CommandView> {
    Seq::new(commands.len(), |i: int| commands[i]@)
}

/// The subcommands of the model of a command are the models of its subcommands.
pub proof fn lemma_command_view(c: Command)
    ensures
        c@.commands == commands_view(c.commands@),
{
    assert(c@.commands =~= commands_view(c.commands@));
}

impl CommandView {
    /// The command of this name that declares nothing else.
    pub open spec fn named(name: Seq<char>) -> CommandView {
        CommandView {
            name,
            about: None,
            version: None,
            author: None,
            aliases: Seq::empty(),
            args: Seq::empty(),
            commands: Seq::empty(),
        }
    }

    /// The command with this text about it.
    pub open spec fn with_about(self, about: Seq<char>) -> CommandView {
        CommandView { about: Some(about), ..self }
    }

    /// The command with this version.
    pub open spec fn with_version(self, version: Seq<char>) -> CommandView {
        CommandView { version: Some(version), ..self }
    }

    /// The command with one more argument.
    pub open spec fn with_arg(self, arg: ArgumentView) -> CommandView {
        CommandView { args: self.args.push(arg), ..self }
    }

    /// The command with one more subcommand.
    pub open spec fn with_command(self, command: CommandView) -> CommandView {
        CommandView { commands: self.commands.push(command), ..self }
    }
}

impl Command {
    /// The command of this name that declares nothing else.
    pub fn named(name: &'static str) -> (res: Command)
        ensures
            res@ == CommandView::named(name@),
    {
        let res = Command {
            name,
            about: None,
            version: None,
            author: None,
            aliases: &[],
            args: Vec::new(),
            commands: Vec::new(),
        };
        proof {
            lemma_command_view(res);
            assert(res@.aliases =~= Seq::<Seq<char>>::empty());
            assert(res@.args =~= Seq::<ArgumentView>::empty());
            assert(res@.commands =~= Seq::<CommandView>::empty());
        }
        res
    }

    /// The command with this text about it.
    pub fn with_about(self, about: &'static str) -> (res: Command)
        ensures
            res@ == self@.with_about(about@),
    {
        let res = Command {
            name: self.name,
            about: Some(about),
            version: self.version,
            author: self.author,
            aliases: self.aliases,
            args: self.args,
            commands: self.commands,
        };
        proof {
            lemma_command_view(res);
            lemma_command_view(self);
        }
        res
    }

    /// The command with this version.
    pub fn with_version(self, version: &'static str) -> (res: Command)
        ensures
            res@ == self@.with_version(version@),
    {
        let res = Command {
            name: self.name,
            about: self.about,
            version: Some(version),
            author: self.author,
            aliases: self.aliases,
            args: self.args,
            commands: self.commands,
        };
        proof {
            lemma_command_view(res);
            lemma_command_view(self);
        }
        res
    }

    /// The command with one more argument.
    pub fn with_arg(self, arg: ArgumentSpec) -> (res: Command)
        ensures
            res@ == self@.with_arg(arg@),
    {
        let mut args = self.args;
        args.push(arg);
        let res = Command {
            name: self.name,
            about: self.about,
            version: self.version,
            author: self.author,
            aliases: self.aliases,
            args,
            commands: self.commands,
        };
        proof {
            lemma_command_view(res);
            lemma_command_view(self);
            assert(res@.args =~= self@.args.push(arg@));
        }
        res
    }

    /// The command with one more subcommand.
    pub fn with_command(self, command: Command) -> (res: Command)
        ensures
            res@ == self@.with_command(command@),
    {
        let mut commands = self.commands;
        commands.push(command);
        let res = Command {
            name: self.name,
            about: self.about,
            version: self.version,
            author: self.author,
            aliases: self.aliases,
            args: self.args,
            commands,
        };
        proof {
            lemma_command_view(res);
            lemma_command_view(self);
            assert(res@.commands =~= self@.commands.push(command@));
        }
        res
    }
}

/// A command of the application. A command says what it declares once, in
/// [`Api::command`]; the other methods read single declarations from that.
pub trait Api {
    /// What the command declares.
    spec fn declared(&self) -> CommandView;

    /// What the command declares, with its arguments and its subcommands.
    fn command(&self) -> (res: Command)
        ensures
            res@ == self.declared(),
    ;

    /// The name of the command.
    fn name(&self) -> (res: &'static str)
        ensures
            res@ == self.declared().name,
    {
        self.command().name
    }

    /// What the command does.
    fn about(&self) -> (res: Option<&'static str>)
        ensures
            text_view(res) == self.declared().about,
    {
        self.command().about
    }

    /// The version of the command.
    fn version(&self) -> (res: Option<&'static str>)
        ensures
            text_view(res) == self.declared().version,
    {
        self.command().version
    }

    /// Who wrote the command.
    fn author(&self) -> (res: Option<&'static str>)
        ensures
            text_view(res) == self.declared().author,
    {
        self.command().author
    }

    /// Other names of the command.
    fn aliases(&self) -> (res: &'static [&'static str])
        ensures
            texts_view(res@) == self.declared().aliases,
    {
        self.command().aliases
    }

    /// The arguments of the command, in their order.
    fn args(&self) -> (res: Vec<ArgumentSpec>)
        ensures
            args_view(res@) == self.declared().args,
    {
        self.command().args
    }

    /// The subcommands of the command, in their order.
    fn commands(&self) -> (res: Vec<Command>)
        ensures
            commands_view(res@) == self.declared().commands,
    {
        let c = self.command();
        proof {
            lemma_command_view(c);
        }
        c.commands
    }
}

/// What the command declares, with its arguments and its subcommands.
pub fn describe<A: Api + ?Sized>(api: &A) -> (res: Command)
    ensures
        res@ == api.declared(),
{
    api.command()
}

/// The names of the commands, in their order.
pub open spec fn command_names(commands: Seq<Command>) -> Seq<Seq<char>> {
    Seq::new(commands.len(), |i: int| commands[i].name@)
}

} // verus!
