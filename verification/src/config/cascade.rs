//! Carrying a configuration change to the applications that depend on it.
//!
//! The cascade is a machine: it names the next thing to be done outside
//! (an [`Action`]), is told what came of it (an [`Event`]), and decides what
//! follows. It walks the graph of dependents depth first, keeps the
//! applications between the root and the one in work on a stack, and contains
//! the failure of a dependent instead of giving up.

use vstd::prelude::*;
use vstd::string::StringExecFns;
use rand::rngs::StdRng;
use std::time::Duration;
use crate::config::{
    configuration_message, no_match_message, strings_view, ConfigurationRes,
    ConfigurationResView, DependencyError, DependencyErrorView, TaggedDependencyError, TaggedView,
};
use crate::config::collections::{name_added, named_configs_view, named_reasons_view, ConfigMap, StoppedMap};
use crate::config::rules::{check_rules, rules_verdict, ConfigRuleEntry};
use crate::config::spec::{config_matches, ConfigSpec};
use crate::config::update::{config_update, LiveView};
use crate::config::value::{put_last, Config, ConfigView};
use crate::error::{
    Error, ErrorView, CFG_RULES_VIOLATION, CFG_SPEC_VIOLATION, GENERAL_ERROR, NOT_FOUND,
};

verus! {

/// What the registry knows of an installed application.
#[derive(Clone, Copy, Debug, PartialEq, Eq)]
pub struct AppStatus {
    pub configured: bool,
    pub recoverable: bool,
}

/// What was read for one application: its registry record, if it is
/// installed, its schema, its rules, the configuration that was stored for it,
/// if any, and the stored configurations of the applications that its
/// pointers name.
pub struct Loaded {
    pub info: Option<AppStatus>,
    pub spec: ConfigSpec,
    pub rules: Vec<ConfigRuleEntry>,
    pub old_config: Option<Config>,
    pub persisted: ConfigMap,
}

/// Mathematical model of a [`Loaded`].
pub struct LoadedView {
    pub info: Option<AppStatus>,
    pub spec: ConfigSpec,
    pub rules: Seq<ConfigRuleEntry>,
    pub old_config: Option<ConfigView>,
    pub persisted: LiveView,
}

impl View for Loaded {
    type V = LoadedView;

    open spec fn view(&self) -> LoadedView {
        LoadedView {
            info: self.info,
            spec: self.spec,
            rules: self.rules@,
            old_config: match self.old_config {
                Some(c) => Some(c@),
                None => None,
            },
            persisted: self.persisted@,
        }
    }
}

/// What happened outside.
pub enum Event {
    /// The application named by [`Action::Load`] was read.
    Loaded(Loaded),
    /// The applications that depend on the one named by [`Action::ListDependents`].
    Dependents(Vec<String>),
    /// Whether the dependent's requirement on its dependency holds: none if
    /// it does or if it declares no requirement, else why it does not.
    Requirement(Option<DependencyError>),
    /// Everything that depends on the dependent was stopped; `stopped` names
    /// each with the reason, `running` says whether the dependent itself is
    /// not stopped yet.
    DependentsStopped { stopped: Vec<(String, TaggedDependencyError)>, running: bool },
    /// Whether the application named by [`Action::Status`] is running.
    Status(bool),
    /// The action was carried out.
    Done,
    /// The action failed.
    Failed(Error),
}

/// Mathematical model of an [`Event`].
pub enum EventView {
    Loaded(LoadedView),
    Dependents(Seq<Seq<char>>),
    Requirement(Option<DependencyErrorView>),
    DependentsStopped { stopped: Seq<(Seq<char>, TaggedView)>, running: bool },
    Status(bool),
    Done,
    Failed(ErrorView),
}

impl View for Event {
    type V = EventView;

    open spec fn view(&self) -> EventView {
        match self {
            Event::Loaded(l) => EventView::Loaded(l@),
            Event::Dependents(names) => EventView::Dependents(strings_view(names@)),
            Event::Requirement(r) => EventView::Requirement(
                match r {
                    Some(e) => Some(e@),
                    None => None,
                },
            ),
            Event::DependentsStopped { stopped, running } => EventView::DependentsStopped {
                stopped: named_reasons_view(stopped@),
                running: *running,
            },
            Event::Status(running) => EventView::Status(*running),
            Event::Done => EventView::Done,
            Event::Failed(e) => EventView::Failed(e@),
        }
    }
}

/// What is to be done outside next.
#[derive(Debug, PartialEq)]
pub enum Action {
    /// Read the application: answer with [`Event::Loaded`].
    Load { name: String },
    /// List the applications that depend on this one: answer with [`Event::Dependents`].
    ListDependents { name: String },
    /// Ask whether the dependent's requirement on the dependency holds of the
    /// two configurations: answer with [`Event::Requirement`].
    CheckRequirement {
        dependency: String,
        dependency_config: Config,
        dependent: String,
        dependent_config: Config,
    },
    /// Mark the application as not configured: answer with [`Event::Done`].
    MarkUnconfigured { name: String },
    /// Stop everything that depends on the application, for the reason that
    /// it is not running, and see whether the application itself still
    /// runs: answer with [`Event::DependentsStopped`].
    StopDependents { name: String },
    /// Stop the application: answer with [`Event::Done`].
    StopApp { name: String },
    /// Store the configuration, make it visible to the running application,
    /// and mark the application as configured and not in need of recovery:
    /// answer with [`Event::Done`].
    Persist { name: String, config: Config },
    /// See whether the application is running: answer with [`Event::Status`].
    Status { name: String },
    /// Mark the application as in need of a restart: answer with [`Event::Done`].
    MarkNeedsRestart { name: String },
}

/// Mathematical model of an [`Action`].
pub enum ActionView {
    Load { name: Seq<char> },
    ListDependents { name: Seq<char> },
    CheckRequirement {
        dependency: Seq<char>,
        dependency_config: ConfigView,
        dependent: Seq<char>,
        dependent_config: ConfigView,
    },
    MarkUnconfigured { name: Seq<char> },
    StopDependents { name: Seq<char> },
    StopApp { name: Seq<char> },
    Persist { name: Seq<char>, config: ConfigView },
    Status { name: Seq<char> },
    MarkNeedsRestart { name: Seq<char> },
}

impl View for Action {
    type V = ActionView;

    open spec fn view(&self) -> ActionView {
        match self {
            Action::Load { name } => ActionView::Load { name: name@ },
            Action::ListDependents { name } => ActionView::ListDependents { name: name@ },
            Action::CheckRequirement {
                dependency,
                dependency_config,
                dependent,
                dependent_config,
            } => ActionView::CheckRequirement {
                dependency: dependency@,
                dependency_config: dependency_config@,
                dependent: dependent@,
                dependent_config: dependent_config@,
            },
            Action::MarkUnconfigured { name } => ActionView::MarkUnconfigured { name: name@ },
            Action::StopDependents { name } => ActionView::StopDependents { name: name@ },
            Action::StopApp { name } => ActionView::StopApp { name: name@ },
            Action::Persist { name, config } => ActionView::Persist {
                name: name@,
                config: config@,
            },
            Action::Status { name } => ActionView::Status { name: name@ },
            Action::MarkNeedsRestart { name } => ActionView::MarkNeedsRestart { name: name@ },
        }
    }
}

/// Where the work on one application stands.
pub enum Stage {
    /// It is being read; `supplied` is the configuration asked for, if any.
    Loading { supplied: Option<Config> },
    /// Its dependents are being listed.
    Listing,
    /// The dependent in turn is in work, one level up the stack.
    Descending,
    /// The requirement of the dependent in turn is being checked.
    Checking,
    /// The dependent in turn is being marked as not configured.
    Unconfiguring { error: DependencyError },
    /// What depends on the dependent in turn is being stopped.
    Containing { error: DependencyError },
    /// The dependent in turn is being stopped.
    Stopping { error: DependencyError },
    /// Its configuration is being stored.
    Persisting,
    /// It is being asked whether it runs.
    Probing,
    /// It is being marked as in need of a restart.
    Flagging,
}

/// Mathematical model of a [`Stage`].
pub enum StageView {
    Loading { supplied: Option<ConfigView> },
    Listing,
    Descending,
    Checking,
    Unconfiguring { error: DependencyErrorView },
    Containing { error: DependencyErrorView },
    Stopping { error: DependencyErrorView },
    Persisting,
    Probing,
    Flagging,
}

impl View for Stage {
    type V = StageView;

    open spec fn view(&self) -> StageView {
        match self {
            Stage::Loading { supplied } => StageView::Loading {
                supplied: match supplied {
                    Some(c) => Some(c@),
                    None => None,
                },
            },
            Stage::Listing => StageView::Listing,
            Stage::Descending => StageView::Descending,
            Stage::Checking => StageView::Checking,
            Stage::Unconfiguring { error } => StageView::Unconfiguring { error: error@ },
            Stage::Containing { error } => StageView::Containing { error: error@ },
            Stage::Stopping { error } => StageView::Stopping { error: error@ },
            Stage::Persisting => StageView::Persisting,
            Stage::Probing => StageView::Probing,
            Stage::Flagging => StageView::Flagging,
        }
    }
}

/// The work on one application: its name, its new configuration once that
/// is known, its dependents once they are listed, the index of the dependent
/// in turn, and the stage.
pub struct Frame {
    pub name: String,
    pub config: Config,
    pub dependents: Vec<String>,
    pub next: usize,
    pub stage: Stage,
}

/// Mathematical model of a [`Frame`].
pub struct FrameView {
    pub name: Seq<char>,
    pub config: ConfigView,
    pub dependents: Seq<Seq<char>>,
    pub next: int,
    pub stage: StageView,
}

impl View for Frame {
    type V = FrameView;

    open spec fn view(&self) -> FrameView {
        FrameView {
            name: self.name@,
            config: self.config@,
            dependents: strings_view(self.dependents@),
            next: self.next as int,
            stage: self.stage@,
        }
    }
}

/// The models of a stack of frames.
pub open spec fn frames_view(stack: Seq<Frame>) -> Seq<FrameView> {
    Seq::new(stack.len(), |i: int| stack[i]@)
}

/// The cascade in progress. The last frame of the stack is the application in work.
pub struct Cascade {
    pub dry_run: bool,
    pub timeout: Option<Duration>,
    pub rng: StdRng,
    pub stack: Vec<Frame>,
    pub res: ConfigurationRes,
}

/// Mathematical model of a [`Cascade`].
pub struct CascadeView {
    pub dry_run: bool,
    pub stack: Seq<FrameView>,
    pub res: ConfigurationResView,
}

impl View for Cascade {
    type V = CascadeView;

    open spec fn view(&self) -> CascadeView {
        CascadeView { dry_run: self.dry_run, stack: frames_view(self.stack@), res: self.res@ }
    }
}

/// What a step of the cascade gives: the cascade to go on with and the next
/// action, or the end with the result of the whole call.
pub enum Step {
    Continue(Cascade, Action),
    Finish(Result<ConfigurationRes, Error>),
}

/// Mathematical model of a [`Step`].
pub enum StepView {
    Continue(CascadeView, ActionView),
    Finish(Result<ConfigurationResView, ErrorView>),
}

impl View for Step {
    type V = StepView;

    open spec fn view(&self) -> StepView {
        match self {
            Step::Continue(c, a) => StepView::Continue(c@, a@),
            Step::Finish(r) => StepView::Finish(
                match r {
                    Ok(res) => Ok(res@),
                    Err(e) => Err(e@),
                },
            ),
        }
    }
}

/// The error of a step that the stage in work does not expect.
pub open spec fn unexpected() -> ErrorView {
    ErrorView { message: "unexpected event"@, code: GENERAL_ERROR as int }
}

/// The error for an application that is not installed.
pub open spec fn not_installed(name: Seq<char>) -> ErrorView {
    ErrorView { message: name + " is not installed"@, code: NOT_FOUND as int }
}

/// True for the codes of a broken schema and of a broken rule.
pub open spec fn is_violation(code: int) -> bool {
    code == CFG_RULES_VIOLATION || code == CFG_SPEC_VIOLATION
}

/// The table `base` with the entries `extra[i..]` stored over it.
pub open spec fn overlay(base: LiveView, extra: LiveView, i: int) -> LiveView
    decreases extra.len() - i,
{
    if i < 0 || i >= extra.len() {
        base
    } else {
        overlay(put_last(base, extra[i].0, extra[i].1), extra, i + 1)
    }
}

/// The table `table` with the reasons `extra[i..]` recorded in it.
pub open spec fn recorded(
    table: Seq<(Seq<char>, TaggedView)>,
    extra: Seq<(Seq<char>, TaggedView)>,
    i: int,
) -> Seq<(Seq<char>, TaggedView)>
    decreases extra.len() - i,
{
    if i < 0 || i >= extra.len() {
        table
    } else {
        recorded(put_last(table, extra[i].0, extra[i].1), extra, i + 1)
    }
}

/// What validating a candidate gives: the candidate must match the schema,
/// its pointers are brought up to date against `live`, and the rules must
/// hold of the outcome, seen beside the configurations of `live`.
pub open spec fn validated(
    name: Seq<char>,
    spec: ConfigSpec,
    rules: Seq<ConfigRuleEntry>,
    candidate: ConfigView,
    live: LiveView,
) -> Result<ConfigView, ErrorView> {
    match config_matches(spec, candidate) {
        Err(m) => Err(
            ErrorView { message: no_match_message(m), code: CFG_SPEC_VIOLATION as int },
        ),
        Ok(_) => match config_update(spec, candidate, live) {
            Err(e) => Err(
                ErrorView { message: configuration_message(e), code: CFG_SPEC_VIOLATION as int },
            ),
            Ok(c) => match rules_verdict(rules, 0, c, put_last(live, name, c)) {
                Err(v) => Err(
                    ErrorView { message: v.description, code: CFG_RULES_VIOLATION as int },
                ),
                Ok(_) => Ok(c),
            },
        },
    }
}

/// True when `cand` may be the candidate for an application: the
/// configuration asked for, else the stored one, else one that was generated
/// and matches the schema, or the failure to generate one.
pub open spec fn candidate_admissible(
    supplied: Option<ConfigView>,
    l: LoadedView,
    cand: Result<ConfigView, ErrorView>,
) -> bool {
    match supplied {
        Some(c) => cand == Ok::<ConfigView, ErrorView>(c),
        None => match l.old_config {
            Some(c) => cand == Ok::<ConfigView, ErrorView>(c),
            None => match cand {
                Ok(g) => config_matches(l.spec, g) is Ok,
                Err(e) => e.code == CFG_SPEC_VIOLATION,
            },
        },
    }
}

impl CascadeView {
    /// The cascade with one more frame on the stack.
    pub open spec fn with_frame(self, f: FrameView) -> CascadeView {
        CascadeView { stack: self.stack.push(f), ..self }
    }

    /// The cascade without the last frame of the stack.
    pub open spec fn without_top(self) -> CascadeView {
        CascadeView { stack: self.stack.drop_last(), ..self }
    }
}

impl FrameView {
    /// The frame at another stage.
    pub open spec fn at(self, stage: StageView) -> FrameView {
        FrameView { stage, ..self }
    }

    /// The frame of an application that is about to be read.
    pub open spec fn fresh(name: Seq<char>, supplied: Option<ConfigView>) -> FrameView {
        FrameView {
            name,
            config: Seq::empty(),
            dependents: Seq::empty(),
            next: 0,
            stage: StageView::Loading { supplied },
        }
    }

    /// True when the index of the dependent in turn names a dependent.
    pub open spec fn has_dependent(self) -> bool {
        0 <= self.next < self.dependents.len()
    }

    /// The dependent in turn.
    pub open spec fn dependent(self) -> Seq<char> {
        self.dependents[self.next]
    }

    /// The frame with the next dependent in turn.
    pub open spec fn forward(self) -> FrameView {
        FrameView { next: self.next + 1, ..self }
    }
}

/// After the last dependent: the configuration is stored unless this is a
/// dry run, and then the application is asked whether it runs.
pub open spec fn spec_settle(c: CascadeView, f: FrameView) -> StepView {
    if !c.dry_run {
        StepView::Continue(
            c.with_frame(f.at(StageView::Persisting)),
            ActionView::Persist { name: f.name, config: f.config },
        )
    } else {
        StepView::Continue(
            c.with_frame(f.at(StageView::Probing)),
            ActionView::Status { name: f.name },
        )
    }
}

/// Going on with the dependent in turn, or settling when there is none left.
pub open spec fn spec_advance(c: CascadeView, f: FrameView) -> StepView {
    if f.has_dependent() {
        StepView::Continue(
            c.with_frame(f.at(StageView::Descending)).with_frame(
                FrameView::fresh(f.dependent(), None),
            ),
            ActionView::Load { name: f.dependent() },
        )
    } else {
        spec_settle(c, f)
    }
}

/// Containing the dependent in turn: what depends on it is stopped first.
pub open spec fn spec_contain(c: CascadeView, p: FrameView, error: DependencyErrorView)
    -> StepView {
    StepView::Continue(
        c.with_frame(p.at(StageView::Containing { error })),
        ActionView::StopDependents { name: p.dependent() },
    )
}

/// The application in work is finished with `result`, and `c` holds what is
/// below it. At the root this ends the call. Else the application was a
/// dependent: where it succeeded, its requirement is checked next; where it
/// broke its schema or its rules, it is marked as not configured (unless this
/// is a dry run) and contained; where it failed otherwise, it is contained.
pub open spec fn spec_complete(c: CascadeView, result: Result<ConfigView, ErrorView>) -> StepView {
    if c.stack.len() == 0 {
        StepView::Finish(
            match result {
                Ok(_) => Ok(c.res),
                Err(e) => Err(e),
            },
        )
    } else {
        let p = c.stack.last();
        let rest = c.without_top();
        if !p.has_dependent() {
            StepView::Finish(Err(unexpected()))
        } else {
            match result {
                Ok(dependent_config) => StepView::Continue(
                    rest.with_frame(p.at(StageView::Checking)),
                    ActionView::CheckRequirement {
                        dependency: p.name,
                        dependency_config: p.config,
                        dependent: p.dependent(),
                        dependent_config,
                    },
                ),
                Err(e) => if is_violation(e.code) {
                    let error = DependencyErrorView::PointerUpdateError(e.message);
                    if !c.dry_run {
                        StepView::Continue(
                            rest.with_frame(p.at(StageView::Unconfiguring { error })),
                            ActionView::MarkUnconfigured { name: p.dependent() },
                        )
                    } else {
                        spec_contain(rest, p, error)
                    }
                } else {
                    spec_contain(rest, p, DependencyErrorView::Other(e.message))
                },
            }
        }
    }
}

/// The application of frame `f` was read as `l`, its candidate is `cand`, and
/// `c` holds what is below it. An application that is not installed fails.
/// The candidate is validated against the stored configurations, over which
/// the ones that this call has changed take precedence. Where the outcome is
/// the configuration that was stored, and the application is configured and
/// not in need of recovery, the application is finished and nothing is
/// recorded. Else the change is recorded and the dependents are listed.
pub open spec fn spec_loaded(
    c: CascadeView,
    f: FrameView,
    l: LoadedView,
    cand: Result<ConfigView, ErrorView>,
) -> StepView {
    match l.info {
        None => spec_complete(c, Err(not_installed(f.name))),
        Some(info) => match cand {
            Err(e) => spec_complete(c, Err(e)),
            Ok(candidate) => match validated(
                f.name,
                l.spec,
                l.rules,
                candidate,
                overlay(l.persisted, c.res.changed, 0),
            ) {
                Err(e) => spec_complete(c, Err(e)),
                Ok(config) => if l.old_config == Some(config) && info.configured
                    && !info.recoverable {
                    spec_complete(c, Ok(config))
                } else {
                    StepView::Continue(
                        CascadeView {
                            res: ConfigurationResView {
                                changed: put_last(c.res.changed, f.name, config),
                                ..c.res
                            },
                            ..c
                        }.with_frame(FrameView { config, stage: StageView::Listing, ..f }),
                        ActionView::ListDependents { name: f.name },
                    )
                },
            },
        },
    }
}

/// True when the stage works on the dependent in turn.
pub open spec fn on_dependent(stage: StageView) -> bool {
    stage is Checking || stage is Unconfiguring || stage is Containing || stage is Stopping
}

/// One step of the cascade `c` on the event `event`, where `cand` is the
/// candidate in case an application was read.
pub open spec fn spec_step(c: CascadeView, event: EventView, cand: Result<ConfigView, ErrorView>)
    -> StepView {
    if c.stack.len() == 0 {
        StepView::Finish(Err(unexpected()))
    } else {
        let f = c.stack.last();
        let rest = c.without_top();
        if event is Failed {
            spec_complete(rest, Err(event->Failed_0))
        } else if on_dependent(f.stage) && !f.has_dependent() {
            StepView::Finish(Err(unexpected()))
        } else {
            match (f.stage, event) {
                (StageView::Loading { supplied }, EventView::Loaded(l)) => spec_loaded(
                    rest,
                    f,
                    l,
                    cand,
                ),
                (StageView::Listing, EventView::Dependents(names)) => spec_advance(
                    rest,
                    FrameView { dependents: names, next: 0, ..f },
                ),
                (StageView::Checking, EventView::Requirement(None)) => spec_advance(
                    rest,
                    f.forward(),
                ),
                (StageView::Checking, EventView::Requirement(Some(error))) => spec_contain(
                    rest,
                    f,
                    error,
                ),
                (StageView::Unconfiguring { error }, EventView::Done) => spec_contain(
                    rest,
                    f,
                    error,
                ),
                (
                    StageView::Containing { error },
                    EventView::DependentsStopped { stopped, running },
                ) => {
                    let noted = CascadeView {
                        res: ConfigurationResView {
                            stopped: recorded(rest.res.stopped, stopped, 0),
                            ..rest.res
                        },
                        ..rest
                    };
                    if running {
                        StepView::Continue(
                            noted.with_frame(f.at(StageView::Stopping { error })),
                            ActionView::StopApp { name: f.dependent() },
                        )
                    } else {
                        spec_advance(noted, f.forward())
                    }
                },
                (StageView::Stopping { error }, EventView::Done) => {
                    let noted = CascadeView {
                        res: ConfigurationResView {
                            stopped: put_last(
                                rest.res.stopped,
                                f.dependent(),
                                TaggedView { dependency: f.name, error },
                            ),
                            ..rest.res
                        },
                        ..rest
                    };
                    spec_advance(noted, f.forward())
                },
                (StageView::Persisting, EventView::Done) => StepView::Continue(
                    rest.with_frame(f.at(StageView::Probing)),
                    ActionView::Status { name: f.name },
                ),
                (StageView::Probing, EventView::Status(running)) => if !running {
                    spec_complete(rest, Ok(f.config))
                } else if !c.dry_run {
                    StepView::Continue(
                        rest.with_frame(f.at(StageView::Flagging)),
                        ActionView::MarkNeedsRestart { name: f.name },
                    )
                } else {
                    spec_complete(spec_restart(rest, f.name), Ok(f.config))
                },
                (StageView::Flagging, EventView::Done) => spec_complete(
                    spec_restart(rest, f.name),
                    Ok(f.config),
                ),
                _ => StepView::Finish(Err(unexpected())),
            }
        }
    }
}

/// The cascade with the application noted as in need of a restart.
pub open spec fn spec_restart(c: CascadeView, name: Seq<char>) -> CascadeView {
    CascadeView {
        res: ConfigurationResView {
            needs_restart: name_added(c.res.needs_restart, name),
            ..c.res
        },
        ..c
    }
}

/// True when `cand` may be the candidate of this step: see
/// [`candidate_admissible`]. Steps that read no application have no candidate.
pub open spec fn step_candidate(
    c: CascadeView,
    event: EventView,
    cand: Result<ConfigView, ErrorView>,
) -> bool {
    if c.stack.len() > 0 {
        match (c.stack.last().stage, event) {
            (StageView::Loading { supplied }, EventView::Loaded(l)) => candidate_admissible(
                supplied,
                l,
                cand,
            ),
            _ => true,
        }
    } else {
        true
    }
}

/// The model of the outcome of work on one application.
pub open spec fn config_result(res: Result<Config, Error>) -> Result<ConfigView, ErrorView> {
    match res {
        Ok(c) => Ok(c@),
        Err(e) => Err(e@),
    }
}

/// The model of a configuration that may be absent.
pub open spec fn optional_config(c: Option<Config>) -> Option<ConfigView> {
    match c {
        Some(c) => Some(c@),
        None => None,
    }
}

/// The error of a step that the stage in work does not expect.
pub fn unexpected_error() -> (res: Error)
    ensures
        res@ == unexpected(),
{
    Error::new("unexpected event".to_owned(), GENERAL_ERROR)
}

/// The table `base` with the entries of `extra` stored over it.
pub fn overlaid(base: ConfigMap, extra: &ConfigMap) -> (res: ConfigMap)
    ensures
        res@ == overlay(base@, extra@, 0),
{
    let entries = extra.to_vec();
    let mut out = base;
    let mut i: usize = 0;
    while i < entries.len()
        invariant
            i <= entries.len(),
            named_configs_view(entries@) == extra@,
            overlay(base@, extra@, 0) == overlay(out@, extra@, i as int),
        decreases entries.len() - i,
    {
        assert(extra@[i as int] == (entries[i as int].0@, entries[i as int].1@));
        out.insert(entries[i].0.clone(), entries[i].1.clone());
        i += 1;
    }
    out
}

/// Records the reasons of `extra` in the table, in their order.
pub fn record_all(table: &mut StoppedMap, extra: &Vec<(String, TaggedDependencyError)>)
    ensures
        final(table)@ == recorded(old(table)@, named_reasons_view(extra@), 0),
{
    let ghost reasons = named_reasons_view(extra@);
    let mut i: usize = 0;
    while i < extra.len()
        invariant
            i <= extra.len(),
            reasons == named_reasons_view(extra@),
            recorded(old(table)@, reasons, 0) == recorded(table@, reasons, i as int),
        decreases extra.len() - i,
    {
        assert(reasons[i as int] == (extra[i as int].0@, extra[i as int].1@));
        table.insert(extra[i].0.clone(), extra[i].1.clone());
        i += 1;
    }
}

/// Validates a candidate for the application `name`: it must match the
/// schema; its pointers are brought up to date against `live`; and the rules
/// must hold of the outcome, seen beside the configurations of `live`. A
/// mismatch and a failed update carry the code of a broken schema, a broken
/// rule the code of a broken rule.
pub fn validate(
    name: &String,
    spec: &ConfigSpec,
    rules: &Vec<ConfigRuleEntry>,
    candidate: Config,
    live: ConfigMap,
) -> (res: Result<Config, Error>)
    ensures
        config_result(res) == validated(name@, *spec, rules@, candidate@, live@),
{
    match spec.matches(&candidate) {
        Ok(_) => {},
        Err(m) => {
            return Err(Error::new(m.message(), CFG_SPEC_VIOLATION));
        },
    }
    let mut config = candidate;
    match spec.update(&mut config, &live) {
        Ok(_) => {},
        Err(e) => {
            return Err(Error::new(e.message(), CFG_SPEC_VIOLATION));
        },
    }
    let mut cfgs = live;
    cfgs.insert(name.clone(), config.clone());
    match check_rules(rules, &config, &cfgs) {
        Ok(_) => Ok(config),
        Err(v) => Err(Error::new(v.description, CFG_RULES_VIOLATION)),
    }
}

impl Cascade {
    /// The cascade with one more frame on the stack.
    fn with(self, f: Frame) -> (res: Cascade)
        ensures
            res@ == self@.with_frame(f@),
    {
        let mut this = self;
        this.stack.push(f);
        proof {
            assert(this@.stack =~= self@.stack.push(f@));
        }
        this
    }

    /// After the last dependent: the configuration is stored unless this is
    /// a dry run, and then the application is asked whether it runs.
    fn settle(self, f: Frame) -> (res: Step)
        ensures
            res@ == spec_settle(self@, f@),
    {
        let mut f = f;
        if !self.dry_run {
            let action = Action::Persist { name: f.name.clone(), config: f.config.clone() };
            f.stage = Stage::Persisting;
            Step::Continue(self.with(f), action)
        } else {
            let action = Action::Status { name: f.name.clone() };
            f.stage = Stage::Probing;
            Step::Continue(self.with(f), action)
        }
    }

    /// Goes on with the dependent in turn, or settles when there is none left.
    fn advance(self, f: Frame) -> (res: Step)
        ensures
            res@ == spec_advance(self@, f@),
    {
        let mut f = f;
        if f.next < f.dependents.len() {
            let name = f.dependents[f.next].clone();
            proof {
                assert(f@.dependents[f.next as int] == name@);
            }
            let action = Action::Load { name: name.clone() };
            let child = Frame {
                name,
                config: Config::new(),
                dependents: Vec::new(),
                next: 0,
                stage: Stage::Loading { supplied: None },
            };
            proof {
                assert(child@.dependents =~= Seq::<Seq<char>>::empty());
            }
            f.stage = Stage::Descending;
            Step::Continue(self.with(f).with(child), action)
        } else {
            self.settle(f)
        }
    }

    /// Goes on with the dependent after the one in turn.
    fn forward(self, f: Frame) -> (res: Step)
        requires
            f@.has_dependent(),
        ensures
            res@ == spec_advance(self@, f@.forward()),
    {
        let mut f = f;
        assert(f.next < f.dependents.len());
        f.next = f.next + 1;
        self.advance(f)
    }

    /// Contains the dependent in turn: what depends on it is stopped first.
    fn contain(self, p: Frame, error: DependencyError) -> (res: Step)
        requires
            p@.has_dependent(),
        ensures
            res@ == spec_contain(self@, p@, error@),
    {
        let mut p = p;
        let name = p.dependents[p.next].clone();
        proof {
            assert(p@.dependents[p.next as int] == name@);
        }
        p.stage = Stage::Containing { error };
        Step::Continue(self.with(p), Action::StopDependents { name })
    }

    /// Takes the last frame off the stack.
    fn pop(self) -> (res: (Cascade, Frame))
        requires
            self.stack.len() > 0,
        ensures
            res.0@ == self@.without_top(),
            res.1@ == self@.stack.last(),
    {
        let mut this = self;
        let f = this.stack.pop().unwrap();
        proof {
            assert(this@.stack =~= self@.stack.drop_last());
        }
        (this, f)
    }

    /// The application in work is finished with `result`; the stack holds
    /// what is below it.
    fn complete(self, result: Result<Config, Error>) -> (res: Step)
        ensures
            res@ == spec_complete(self@, config_result(result)),
    {
        if self.stack.len() == 0 {
            return Step::Finish(
                match result {
                    Ok(_) => Ok(self.res),
                    Err(e) => Err(e),
                },
            );
        }
        let dry_run = self.dry_run;
        let (rest, p) = self.pop();
        if p.next >= p.dependents.len() {
            return Step::Finish(Err(unexpected_error()));
        }
        let mut p = p;
        match result {
            Ok(dependent_config) => {
                let dependent = p.dependents[p.next].clone();
                proof {
                    assert(p@.dependents[p.next as int] == dependent@);
                }
                let action = Action::CheckRequirement {
                    dependency: p.name.clone(),
                    dependency_config: p.config.clone(),
                    dependent,
                    dependent_config,
                };
                p.stage = Stage::Checking;
                Step::Continue(rest.with(p), action)
            },
            Err(e) => {
                if e.code == CFG_RULES_VIOLATION || e.code == CFG_SPEC_VIOLATION {
                    let error = DependencyError::PointerUpdateError(e.message);
                    if !dry_run {
                        let name = p.dependents[p.next].clone();
                        proof {
                            assert(p@.dependents[p.next as int] == name@);
                        }
                        p.stage = Stage::Unconfiguring { error };
                        Step::Continue(rest.with(p), Action::MarkUnconfigured { name })
                    } else {
                        rest.contain(p, error)
                    }
                } else {
                    rest.contain(p, DependencyError::Other(e.message))
                }
            },
        }
    }

    /// The application of frame `f` was read as `l`; the stack holds what is
    /// below it.
    fn loaded(self, f: Frame, l: Loaded) -> (res: Step)
        requires
            f.stage is Loading,
        ensures
            exists|cand: Result<ConfigView, ErrorView>|
                candidate_admissible(f@.stage->supplied, l@, cand) && res@ == spec_loaded(
                    self@,
                    f@,
                    l@,
                    cand,
                ),
    {
        let ghost before = self@;
        let ghost fv = f@;
        let ghost lv = l@;
        let mut this = self;
        let Frame { name, config: _, dependents, next, stage } = f;
        let Loaded { info, spec, rules, old_config, persisted } = l;
        let supplied = match stage {
            Stage::Loading { supplied } => supplied,
            _ => None,
        };
        let candidate: Result<Config, Error> = match supplied {
            Some(c) => Ok(c),
            None => match &old_config {
                Some(c) => Ok(c.clone()),
                None => match spec.generate(&mut this.rng, &this.timeout) {
                    Ok(g) => Ok(g),
                    Err(e) => Err(Error::new(e.message(), CFG_SPEC_VIOLATION)),
                },
            },
        };
        let ghost cand = config_result(candidate);
        assert(candidate_admissible(fv.stage->supplied, lv, cand));
        assert(this@ == before);
        let info = match info {
            Some(i) => i,
            None => {
                let message = name.clone().concat(" is not installed");
                return this.complete(Err(Error::new(message, NOT_FOUND)));
            },
        };
        let candidate = match candidate {
            Ok(c) => c,
            Err(e) => {
                return this.complete(Err(e));
            },
        };
        let live = overlaid(persisted, &this.res.changed);
        let config = match validate(&name, &spec, &rules, candidate, live) {
            Ok(c) => c,
            Err(e) => {
                return this.complete(Err(e));
            },
        };
        let unchanged = match &old_config {
            Some(old) => old.equals(&config) && info.configured && !info.recoverable,
            None => false,
        };
        if unchanged {
            return this.complete(Ok(config));
        }
        this.res.changed.insert(name.clone(), config.clone());
        let action = Action::ListDependents { name: name.clone() };
        let f = Frame { name, config, dependents, next, stage: Stage::Listing };
        Step::Continue(this.with(f), action)
    }

    /// One step of the cascade: takes what happened outside and decides what
    /// is to be done next, or ends the call. An event that the stage in work
    /// does not expect ends the call with an error.
    pub fn step(self, event: Event) -> (res: Step)
        ensures
            exists|cand: Result<ConfigView, ErrorView>|
                step_candidate(self@, event@, cand) && res@ == spec_step(self@, event@, cand),
    {
        let ghost idle: Result<ConfigView, ErrorView> = Ok(Seq::empty());
        let ghost before = self@;
        let ghost ev = event@;
        if self.stack.len() == 0 {
            assert(step_candidate(before, ev, idle));
            return Step::Finish(Err(unexpected_error()));
        }
        let dry_run = self.dry_run;
        let (rest, f) = self.pop();
        let ghost fv = f@;
        if let Event::Failed(e) = event {
            assert(step_candidate(before, ev, idle));
            return rest.complete(Err(e));
        }
        let on_dependent = match &f.stage {
            Stage::Checking => true,
            Stage::Unconfiguring { error } => true,
            Stage::Containing { error } => true,
            Stage::Stopping { error } => true,
            _ => false,
        };
        if on_dependent && f.next >= f.dependents.len() {
            assert(step_candidate(before, ev, idle));
            return Step::Finish(Err(unexpected_error()));
        }
        let Frame { name, config, dependents, next, stage } = f;
        match (stage, event) {
            (Stage::Loading { supplied }, Event::Loaded(l)) => {
                let f = Frame { name, config, dependents, next, stage: Stage::Loading { supplied } };
                assert(f@ == fv);
                let res = rest.loaded(f, l);
                proof {
                    let cand = choose|cand: Result<ConfigView, ErrorView>|
                        candidate_admissible(f@.stage->supplied, l@, cand) && res@ == spec_loaded(
                            rest@,
                            f@,
                            l@,
                            cand,
                        );
                    assert(step_candidate(before, ev, cand));
                    assert(res@ == spec_step(before, ev, cand));
                }
                res
            },
            (Stage::Listing, Event::Dependents(names)) => {
                let f = Frame { name, config, dependents: names, next: 0, stage: Stage::Listing };
                let res = rest.advance(f);
                proof {
                    assert(step_candidate(before, ev, idle));
                    assert(res@ == spec_step(before, ev, idle));
                }
                res
            },
            (Stage::Checking, Event::Requirement(None)) => {
                let f = Frame { name, config, dependents, next, stage: Stage::Checking };
                assert(f@ == fv);
                let res = rest.forward(f);
                proof {
                    assert(step_candidate(before, ev, idle));
                    assert(res@ == spec_step(before, ev, idle));
                }
                res
            },
            (Stage::Checking, Event::Requirement(Some(error))) => {
                let f = Frame { name, config, dependents, next, stage: Stage::Checking };
                assert(f@ == fv);
                let res = rest.contain(f, error);
                proof {
                    assert(step_candidate(before, ev, idle));
                    assert(res@ == spec_step(before, ev, idle));
                }
                res
            },
            (Stage::Unconfiguring { error }, Event::Done) => {
                let again = error.clone();
                let f = Frame {
                    name,
                    config,
                    dependents,
                    next,
                    stage: Stage::Unconfiguring { error },
                };
                assert(f@ == fv);
                let res = rest.contain(f, again);
                proof {
                    assert(step_candidate(before, ev, idle));
                    assert(res@ == spec_step(before, ev, idle));
                }
                res
            },
            (Stage::Containing { error }, Event::DependentsStopped { stopped, running }) => {
                let mut noted = rest;
                record_all(&mut noted.res.stopped, &stopped);
                let res = if running {
                    let dependent = dependents[next].clone();
                    let f = Frame {
                        name,
                        config,
                        dependents,
                        next,
                        stage: Stage::Stopping { error },
                    };
                    proof {
                        assert(f@.dependents[next as int] == dependent@);
                        assert(f@ == fv.at(StageView::Stopping { error: error@ }));
                    }
                    Step::Continue(noted.with(f), Action::StopApp { name: dependent })
                } else {
                    let f = Frame {
                        name,
                        config,
                        dependents,
                        next,
                        stage: Stage::Containing { error },
                    };
                    assert(f@ == fv);
                    noted.forward(f)
                };
                proof {
                    assert(step_candidate(before, ev, idle));
                    assert(res@ == spec_step(before, ev, idle));
                }
                res
            },
            (Stage::Stopping { error }, Event::Done) => {
                let mut noted = rest;
                let dependent = dependents[next].clone();
                let reason = TaggedDependencyError {
                    dependency: name.clone(),
                    error: error.clone(),
                };
                noted.res.stopped.insert(dependent, reason);
                let f = Frame { name, config, dependents, next, stage: Stage::Stopping { error } };
                proof {
                    assert(f@ == fv);
                    assert(f@.dependents[next as int] == dependents[next as int]@);
                }
                let res = noted.forward(f);
                proof {
                    assert(step_candidate(before, ev, idle));
                    assert(res@ == spec_step(before, ev, idle));
                }
                res
            },
            (Stage::Persisting, Event::Done) => {
                let action = Action::Status { name: name.clone() };
                let f = Frame { name, config, dependents, next, stage: Stage::Probing };
                proof {
                    assert(f@ == fv.at(StageView::Probing));
                }
                let res = Step::Continue(rest.with(f), action);
                proof {
                    assert(step_candidate(before, ev, idle));
                    assert(res@ == spec_step(before, ev, idle));
                }
                res
            },
            (Stage::Probing, Event::Status(running)) => {
                let res = if !running {
                    rest.complete(Ok(config))
                } else if !dry_run {
                    let action = Action::MarkNeedsRestart { name: name.clone() };
                    let f = Frame { name, config, dependents, next, stage: Stage::Flagging };
                    proof {
                        assert(f@ == fv.at(StageView::Flagging));
                    }
                    Step::Continue(rest.with(f), action)
                } else {
                    let mut noted = rest;
                    noted.res.needs_restart.insert(name);
                    noted.complete(Ok(config))
                };
                proof {
                    assert(step_candidate(before, ev, idle));
                    assert(res@ == spec_step(before, ev, idle));
                }
                res
            },
            (Stage::Flagging, Event::Done) => {
                let mut noted = rest;
                noted.res.needs_restart.insert(name);
                let res = noted.complete(Ok(config));
                proof {
                    assert(step_candidate(before, ev, idle));
                    assert(res@ == spec_step(before, ev, idle));
                }
                res
            },
            _ => {
                let res = Step::Finish(Err(unexpected_error()));
                proof {
                    assert(step_candidate(before, ev, idle));
                    assert(res@ == spec_step(before, ev, idle));
                }
                res
            },
        }
    }
}

} // verus!
