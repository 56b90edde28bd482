//! Carrying out a reconciliation pass, one action at a time.
//!
//! A [`Pass`] never touches the system. It says what to do next; the caller
//! does it and reports what happened; the pass then decides how to go on.
//! The operations come in a fixed order: PPAs, apt packages, downloaded
//! packages, cargo packages, direct downloads.
//!
//! A command that cannot be started ends the pass with an error. A command
//! that exits with a failure ends its operation when the operation installs
//! packages (apt, downloaded packages, cargo) and is passed over otherwise
//! (PPAs, direct downloads); either way the pass goes on with the next
//! operation.

use vstd::prelude::*;
use crate::command::{copy_strings, program, Invocation, InvocationView};
use crate::common::{missing, AppError, AppErrorView, Lookup, LookupView};
use crate::packages::{
    resolved_destination, DownloadView, PackagesConfig, PackagesConfigView,
};
use crate::plan::{
    all_resolved, apt_plan, cargo_plan, curl_plan, deb_plan, first_unresolved, ppa_plan, Plan,
    PlanView,
};

verus! {

/// The five reconciler operations.
#[derive(Debug, Clone, Copy, PartialEq, Eq)]
pub enum Operation {
    Ppas,
    Apt,
    Debs,
    Cargo,
    Curls,
}

impl Operation {
    /// Whether a command that exits with a failure ends this operation.
    pub open spec fn strict(self) -> bool {
        self is Apt || self is Debs || self is Cargo
    }

    /// The operation that comes after this one, if any.
    pub open spec fn following(self) -> Option<Operation> {
        match self {
            Operation::Ppas => Some(Operation::Apt),
            Operation::Apt => Some(Operation::Debs),
            Operation::Debs => Some(Operation::Cargo),
            Operation::Cargo => Some(Operation::Curls),
            Operation::Curls => None,
        }
    }

    /// The place of this operation in the fixed order, from zero.
    pub open spec fn rank(self) -> nat {
        match self {
            Operation::Ppas => 0,
            Operation::Apt => 1,
            Operation::Debs => 2,
            Operation::Cargo => 3,
            Operation::Curls => 4,
        }
    }

    /// Whether a command that exits with a failure ends this operation.
    pub fn is_strict(&self) -> (strict: bool)
        ensures
            strict == self.strict(),
    {
        match self {
            Operation::Apt => true,
            Operation::Debs => true,
            Operation::Cargo => true,
            _ => false,
        }
    }

    /// The operation that comes after this one, if any.
    pub fn next(&self) -> (next: Option<Operation>)
        ensures
            next == self.following(),
    {
        match self {
            Operation::Ppas => Some(Operation::Apt),
            Operation::Apt => Some(Operation::Debs),
            Operation::Debs => Some(Operation::Cargo),
            Operation::Cargo => Some(Operation::Curls),
            Operation::Curls => None,
        }
    }
}

/// What happened to one command.
#[derive(Debug, Clone, PartialEq, Eq)]
pub enum Outcome {
    /// The command was recorded, not run.
    Logged,
    /// The command ran and exited, with success or not.
    Exited(bool),
    /// The command could not be started because its program was not found.
    NotFound,
    /// The command could not be started for another reason; the text says
    /// which.
    SpawnFailed(String),
}

/// The mathematical value of an [`Outcome`].
pub enum OutcomeView {
    Logged,
    Exited(bool),
    NotFound,
    SpawnFailed(Seq<char>),
}

impl View for Outcome {
    type V = OutcomeView;

    open spec fn view(&self) -> OutcomeView {
        match self {
            Outcome::Logged => OutcomeView::Logged,
            Outcome::Exited(success) => OutcomeView::Exited(*success),
            Outcome::NotFound => OutcomeView::NotFound,
            Outcome::SpawnFailed(cause) => OutcomeView::SpawnFailed(cause@),
        }
    }
}

/// What the caller reports back to a pass.
#[derive(Debug, Clone, PartialEq, Eq)]
pub enum Event {
    /// The answers of the lookup tool for the names asked about.
    Looked(Vec<Lookup>),
    /// What happened to the command last handed out.
    Done(Outcome),
}

/// The mathematical value of an [`Event`].
pub enum EventView {
    Looked(Seq<LookupView>),
    Done(OutcomeView),
}

impl View for Event {
    type V = EventView;

    open spec fn view(&self) -> EventView {
        match self {
            Event::Looked(lookups) => EventView::Looked(lookups.deep_view()),
            Event::Done(outcome) => EventView::Done(outcome@),
        }
    }
}

/// What a pass asks its caller to do next.
#[derive(Debug, PartialEq, Eq)]
pub enum Action {
    /// Look these names up on the system and answer with [`Event::Looked`].
    Lookup(Vec<String>),
    /// Record this command as the one that would have run, and answer with
    /// [`Outcome::Logged`].
    Log(Invocation),
    /// Start this command, wait for it, and answer with how it ended.
    Spawn(Invocation),
    /// Nothing more: the pass is over, with this result.
    Finish(Result<(), AppError>),
}

/// The mathematical value of an [`Action`].
pub enum ActionView {
    Lookup(Seq<Seq<char>>),
    Log(InvocationView),
    Spawn(InvocationView),
    Finish(Result<(), AppErrorView>),
}

/// The mathematical value of the result of a pass.
pub open spec fn result_view(result: Result<(), AppError>) -> Result<(), AppErrorView> {
    match result {
        Ok(()) => Ok(()),
        Err(error) => Err(error@),
    }
}

impl View for Action {
    type V = ActionView;

    open spec fn view(&self) -> ActionView {
        match self {
            Action::Lookup(names) => ActionView::Lookup(names.deep_view()),
            Action::Log(inv) => ActionView::Log(inv@),
            Action::Spawn(inv) => ActionView::Spawn(inv@),
            Action::Finish(result) => ActionView::Finish(result_view(*result)),
        }
    }
}

/// How a command is carried out: recorded in a dry run, started otherwise.
pub open spec fn carry_out(dry_run: bool, inv: InvocationView) -> ActionView {
    if dry_run {
        ActionView::Log(inv)
    } else {
        ActionView::Spawn(inv)
    }
}

/// How a pass goes on after a command.
#[derive(Debug, Clone, PartialEq, Eq)]
pub enum Verdict {
    /// On to the next command of the operation.
    Proceed,
    /// The rest of the operation is given up; on to the next operation.
    Abandon,
    /// The pass ends with this error.
    Abort(AppError),
}

/// The mathematical value of a [`Verdict`].
pub enum VerdictView {
    Proceed,
    Abandon,
    Abort(AppErrorView),
}

impl View for Verdict {
    type V = VerdictView;

    open spec fn view(&self) -> VerdictView {
        match self {
            Verdict::Proceed => VerdictView::Proceed,
            Verdict::Abandon => VerdictView::Abandon,
            Verdict::Abort(error) => VerdictView::Abort(error@),
        }
    }
}

/// How a pass goes on after a command of `op`, which starts `program`, ended
/// with `outcome`. A recorded command and a success go on; a failure goes on
/// too unless `op` is strict, which it ends; a command that could not be
/// started ends the pass with an error that names the program.
pub open spec fn verdict(op: Operation, program: Seq<char>, outcome: OutcomeView) -> VerdictView {
    match outcome {
        OutcomeView::Logged => VerdictView::Proceed,
        OutcomeView::Exited(success) => if success || !op.strict() {
            VerdictView::Proceed
        } else {
            VerdictView::Abandon
        },
        OutcomeView::NotFound => VerdictView::Abort(AppErrorView::NoInstalledProg(program)),
        OutcomeView::SpawnFailed(cause) => VerdictView::Abort(
            AppErrorView::IoError(program, cause),
        ),
    }
}

impl Operation {
    /// Decides how a pass goes on after a command of this operation, which
    /// starts `program`, ended with `outcome`.
    pub fn judge(&self, program: &str, outcome: &Outcome) -> (decision: Verdict)
        ensures
            decision@ == verdict(*self, program@, outcome@),
    {
        match outcome {
            Outcome::Logged => Verdict::Proceed,
            Outcome::Exited(success) => {
                if *success || !self.is_strict() {
                    Verdict::Proceed
                } else {
                    Verdict::Abandon
                }
            },
            Outcome::NotFound => Verdict::Abort(AppError::NoInstalledProg(program.to_owned())),
            Outcome::SpawnFailed(cause) => Verdict::Abort(
                AppError::IoError(program.to_owned(), cause.clone()),
            ),
        }
    }
}

/// The names that are looked up before `op`: the declared packages whose
/// presence decides what `op` does, and none for the operations that do not
/// go by presence.
pub open spec fn lookup_names(config: PackagesConfigView, op: Operation) -> Seq<Seq<char>> {
    match op {
        Operation::Ppas => Seq::empty(),
        Operation::Apt => config.apt,
        Operation::Debs => config.debs.map_values(|deb: DownloadView| deb.name),
        Operation::Cargo => config.cargo,
        Operation::Curls => Seq::empty(),
    }
}

/// The first download of `curl` without a destination below `home`.
pub open spec fn first_unresolved_index(home: Seq<char>, curl: Seq<DownloadView>) -> int {
    choose|index: int| first_unresolved(home, curl, index)
}

/// What `op` plans for `config`, given the answers of the lookup tool. Only
/// the direct downloads can fail: when one of them has no destination.
pub open spec fn plan_for(
    config: PackagesConfigView,
    home: Seq<char>,
    force_update: bool,
    op: Operation,
    lookups: Seq<LookupView>,
) -> Result<PlanView, AppErrorView> {
    match op {
        Operation::Ppas => Ok(ppa_plan(config.ppas)),
        Operation::Apt => Ok(apt_plan(config.apt, lookups)),
        Operation::Debs => Ok(deb_plan(config.temp_dir, config.debs, lookups, force_update)),
        Operation::Cargo => Ok(cargo_plan(config.cargo, lookups)),
        Operation::Curls => if all_resolved(home, config.curl) {
            Ok(curl_plan(home, config.curl))
        } else {
            Err(
                AppErrorView::NoDestination(
                    config.curl[first_unresolved_index(home, config.curl)].name,
                ),
            )
        },
    }
}

/// Where a pass stands.
pub enum StageView {
    /// The names of this operation are being looked up.
    Looking(Operation),
    /// The commands of this operation are being carried out.
    Running(Operation),
    /// The pass is over, with this result.
    Finished(Result<(), AppErrorView>),
}

/// The mathematical value of a [`Pass`].
pub struct PassView {
    pub config: PackagesConfigView,
    pub home: Seq<char>,
    pub force_update: bool,
    pub stage: StageView,
    /// What the operation last planned decided.
    pub plan: PlanView,
    /// How many commands of `plan` have been dealt with.
    pub at: nat,
}

impl PassView {
    /// While an operation is running, one of its commands is up next.
    pub open spec fn well_formed(self) -> bool {
        self.stage is Running ==> self.at < self.plan.commands.len()
    }

    /// The command that is up next while an operation is running.
    pub open spec fn current(self) -> InvocationView {
        self.plan.commands[self.at as int]
    }

    /// How far the pass has come: later operations and later stages of one
    /// operation count higher, and a finished pass highest.
    pub open spec fn progress(self) -> nat {
        match self.stage {
            StageView::Looking(op) => 2 * op.rank(),
            StageView::Running(op) => 2 * op.rank() + 1,
            StageView::Finished(_) => 10,
        }
    }

    /// The pass after `op` is over: looking up the names of the following
    /// operation, or finished with success after the last one.
    pub open spec fn leave(self, op: Operation) -> PassView {
        PassView {
            stage: match op.following() {
                Some(next) => StageView::Looking(next),
                None => StageView::Finished(Ok(())),
            },
            ..self
        }
    }

    /// The pass with `at` commands of `op` dealt with: running the next one,
    /// or past `op` when none is left.
    pub open spec fn resume(self, op: Operation, at: nat) -> PassView {
        if at < self.plan.commands.len() {
            PassView { stage: StageView::Running(op), at, ..self }
        } else {
            (PassView { at, ..self }).leave(op)
        }
    }

    /// The pass once the names of `op` have been looked up: finished with the
    /// error when `op` cannot be planned, else at the first command of its
    /// plan.
    pub open spec fn start(self, op: Operation, lookups: Seq<LookupView>) -> PassView {
        match plan_for(self.config, self.home, self.force_update, op, lookups) {
            Ok(plan) => (PassView { plan, ..self }).resume(op, 0),
            Err(error) => PassView { stage: StageView::Finished(Err(error)), ..self },
        }
    }

    /// What the pass asks for next.
    pub open spec fn action(self) -> ActionView {
        match self.stage {
            StageView::Looking(op) => ActionView::Lookup(lookup_names(self.config, op)),
            StageView::Running(_) => carry_out(self.config.dry_run, self.current()),
            StageView::Finished(result) => ActionView::Finish(result),
        }
    }

    /// The pass after `event`. An event that does not answer what the pass
    /// asked for changes nothing.
    pub open spec fn advance(self, event: EventView) -> PassView {
        match (self.stage, event) {
            (StageView::Looking(op), EventView::Looked(lookups)) => self.start(op, lookups),
            (StageView::Running(op), EventView::Done(outcome)) => match verdict(
                op,
                program(self.current()),
                outcome,
            ) {
                VerdictView::Proceed => self.resume(op, self.at + 1),
                VerdictView::Abandon => self.leave(op),
                VerdictView::Abort(error) => PassView {
                    stage: StageView::Finished(Err(error)),
                    ..self
                },
            },
            _ => self,
        }
    }

    /// The pass after all of `events`, in order.
    pub open spec fn after(self, events: Seq<EventView>) -> PassView
        decreases events.len(),
    {
        if events.len() == 0 {
            self
        } else {
            self.after(events.drop_last()).advance(events.last())
        }
    }
}

impl PassView {
    /// The commands that were handed out and answered in the course of
    /// `events`, in order.
    pub open spec fn handed_out(self, events: Seq<EventView>) -> Seq<InvocationView>
        decreases events.len(),
    {
        if events.len() == 0 {
            Seq::empty()
        } else {
            let before = self.after(events.drop_last());
            let earlier = self.handed_out(events.drop_last());
            if before.stage is Running && events.last() is Done {
                earlier.push(before.current())
            } else {
                earlier
            }
        }
    }
}

/// The events that report `outcomes`, one command after the other.
pub open spec fn reports(outcomes: Seq<OutcomeView>) -> Seq<EventView> {
    outcomes.map_values(|outcome: OutcomeView| EventView::Done(outcome))
}

/// As many successful exits as there are commands to answer.
pub open spec fn successes(count: nat) -> Seq<OutcomeView> {
    Seq::new(count, |i: int| OutcomeView::Exited(true))
}

/// The events of one operation in which nothing fails: the answers of the
/// lookup tool, then a successful exit for each command of `plan`.
pub open spec fn smooth_operation(lookups: Seq<LookupView>, plan: PlanView) -> Seq<EventView> {
    seq![EventView::Looked(lookups)] + reports(successes(plan.commands.len()))
}

/// The pass over `config` before anything has happened: about to look up the
/// names of the first operation.
pub open spec fn initial(config: PackagesConfigView, home: Seq<char>, force_update: bool) -> PassView {
    PassView {
        config,
        home,
        force_update,
        stage: StageView::Looking(Operation::Ppas),
        plan: PlanView { skipped: Seq::empty(), commands: Seq::empty() },
        at: 0,
    }
}

/// Where a pass stands.
#[derive(Debug, PartialEq, Eq)]
enum Stage {
    Looking(Operation),
    Running(Operation),
    Finished(Result<(), AppError>),
}

impl View for Stage {
    type V = StageView;

    closed spec fn view(&self) -> StageView {
        match self {
            Stage::Looking(op) => StageView::Looking(*op),
            Stage::Running(op) => StageView::Running(*op),
            Stage::Finished(result) => StageView::Finished(result_view(*result)),
        }
    }
}

/// One reconciliation pass over a configuration: all five operations, in
/// their fixed order.
#[derive(Debug, PartialEq, Eq)]
pub struct Pass {
    config: PackagesConfig,
    home: String,
    force_update: bool,
    stage: Stage,
    plan: Plan,
    at: usize,
}

impl View for Pass {
    type V = PassView;

    closed spec fn view(&self) -> PassView {
        PassView {
            config: self.config@,
            home: self.home@,
            force_update: self.force_update,
            stage: self.stage@,
            plan: self.plan@,
            at: self.at as nat,
        }
    }
}

/// A copy of the result of a pass.
fn copy_result(result: &Result<(), AppError>) -> (copy: Result<(), AppError>)
    ensures
        result_view(copy) == result_view(*result),
{
    match result {
        Ok(()) => Ok(()),
        Err(error) => Err(error.duplicate()),
    }
}

/// Starts a reconciliation pass over `packages`: direct downloads go below
/// `home_dir`, and `force_update` has downloaded packages installed again
/// even where they are present.
pub fn install_all(home_dir: &str, force_update: bool, packages: PackagesConfig) -> (pass: Pass)
    ensures
        pass@ == initial(packages@, home_dir@, force_update),
{
    let skipped: Vec<String> = Vec::new();
    let commands: Vec<Invocation> = Vec::new();
    assert(skipped.deep_view() =~= Seq::<Seq<char>>::empty());
    assert(commands.deep_view() =~= Seq::<InvocationView>::empty());
    Pass {
        config: packages,
        home: home_dir.to_owned(),
        force_update,
        stage: Stage::Looking(Operation::Ppas),
        plan: Plan { skipped, commands },
        at: 0,
    }
}

impl Pass {
    #[verifier::type_invariant]
    spec fn well_formed(&self) -> bool {
        self@.well_formed()
    }

    /// The configuration that this pass reconciles.
    pub fn config(&self) -> (config: &PackagesConfig)
        ensures
            config@ == self@.config,
    {
        &self.config
    }

    /// The names that the operation last planned leaves alone because they
    /// are already on the system.
    pub fn skipped(&self) -> (skipped: &Vec<String>)
        ensures
            skipped.deep_view() == self@.plan.skipped,
    {
        &self.plan.skipped
    }

    /// Whether the pass is over.
    pub fn is_finished(&self) -> (finished: bool)
        ensures
            finished == (self@.stage is Finished),
    {
        match &self.stage {
            Stage::Finished(_) => true,
            _ => false,
        }
    }

    /// What `op` plans for the configuration of this pass, given the answers
    /// of the lookup tool.
    fn plan_operation(&self, op: Operation, lookups: &Vec<Lookup>) -> (planned: Result<
        Plan,
        AppError,
    >)
        ensures
            match planned {
                Ok(plan) => plan_for(
                    self@.config,
                    self@.home,
                    self@.force_update,
                    op,
                    lookups.deep_view(),
                ) == Ok::<PlanView, AppErrorView>(plan@),
                Err(error) => plan_for(
                    self@.config,
                    self@.home,
                    self@.force_update,
                    op,
                    lookups.deep_view(),
                ) == Err::<PlanView, AppErrorView>(error@),
            },
    {
        match op {
            Operation::Ppas => Ok(self.config.install_ppas()),
            Operation::Apt => Ok(self.config.install_apt_packages(lookups)),
            Operation::Debs => Ok(self.config.install_downloaded_debs(self.force_update, lookups)),
            Operation::Cargo => Ok(self.config.install_cargo_packages(lookups)),
            Operation::Curls => {
                let planned = self.config.install_direct_curls(self.home.as_str());
                proof {
                    if planned is Err {
                        let curl = self@.config.curl;
                        let index = choose|index: int| #[trigger]
                            first_unresolved(self@.home, curl, index) && planned->Err_0@
                                == AppErrorView::NoDestination(curl[index].name);
                        lemma_first_unresolved_unique(
                            self@.home,
                            curl,
                            index,
                            first_unresolved_index(self@.home, curl),
                        );
                    }
                }
                planned
            },
        }
    }

    /// The names to look up before `op`.
    fn names_for(&self, op: Operation) -> (names: Vec<String>)
        ensures
            names.deep_view() == lookup_names(self@.config, op),
    {
        match op {
            Operation::Apt => copy_strings(self.config.apt()),
            Operation::Debs => self.config.deb_names(),
            Operation::Cargo => copy_strings(self.config.cargo()),
            _ => {
                let names: Vec<String> = Vec::new();
                assert(names.deep_view() =~= Seq::<Seq<char>>::empty());
                names
            },
        }
    }

    /// What to do next. In a dry run no command is ever started: each is
    /// handed out to be recorded instead.
    pub fn action(&self) -> (action: Action)
        ensures
            action@ == self@.action(),
            self@.config.dry_run ==> !(action is Spawn),
    {
        proof {
            use_type_invariant(self);
        }
        match &self.stage {
            Stage::Looking(op) => Action::Lookup(self.names_for(*op)),
            Stage::Running(_) => self.config.exec_or_log_command(
                self.plan.commands[self.at].duplicate(),
            ),
            Stage::Finished(result) => Action::Finish(copy_result(result)),
        }
    }

    /// This pass after `op` is over.
    fn leave(self, op: Operation) -> (next: Pass)
        ensures
            next@ == self@.leave(op),
    {
        let Pass { config, home, force_update, stage, plan, at } = self;
        let stage = match op.next() {
            Some(next) => Stage::Looking(next),
            None => Stage::Finished(Ok(())),
        };
        Pass { config, home, force_update, stage, plan, at }
    }

    /// This pass with `at` commands of `op` dealt with.
    fn resume(self, op: Operation, at: usize) -> (next: Pass)
        ensures
            next@ == self@.resume(op, at as nat),
    {
        let Pass { config, home, force_update, stage, plan, at: _ } = self;
        if at < plan.commands.len() {
            Pass { config, home, force_update, stage: Stage::Running(op), plan, at }
        } else {
            let stage = match op.next() {
                Some(next) => Stage::Looking(next),
                None => Stage::Finished(Ok(())),
            };
            Pass { config, home, force_update, stage, plan, at }
        }
    }

    /// This pass once the names of `op` have been looked up.
    fn start(self, op: Operation, lookups: &Vec<Lookup>) -> (next: Pass)
        ensures
            next@ == self@.start(op, lookups.deep_view()),
    {
        let planned = self.plan_operation(op, lookups);
        let Pass { config, home, force_update, stage, plan, at } = self;
        match planned {
            Ok(plan) => {
                let begun = Pass {
                    config,
                    home,
                    force_update,
                    stage: Stage::Looking(op),
                    plan,
                    at,
                };
                begun.resume(op, 0)
            },
            Err(error) => Pass {
                config,
                home,
                force_update,
                stage: Stage::Finished(Err(error)),
                plan,
                at,
            },
        }
    }

    /// Takes in what happened and moves on. A command that could not be
    /// started ends the pass with an error that names its program; a
    /// failure of a command ends an operation that installs packages; an
    /// event that does not answer what was asked for changes nothing.
    pub fn advance(self, event: Event) -> (next: Pass)
        ensures
            next@ == self@.advance(event@),
    {
        proof {
            use_type_invariant(&self);
        }
        match (&self.stage, event) {
            (Stage::Looking(op), Event::Looked(lookups)) => {
                let op = *op;
                self.start(op, &lookups)
            },
            (Stage::Running(op), Event::Done(outcome)) => {
                let op = *op;
                assert(self@.stage is Running);
                assert(self.at < self.plan.commands.len()) by {
                    assert(self@.plan.commands.len() == self.plan.commands.len());
                }
                let started = self.plan.commands[self.at].program();
                match op.judge(started.as_str(), &outcome) {
                    Verdict::Proceed => {
                        let at = self.at + 1;
                        self.resume(op, at)
                    },
                    Verdict::Abandon => self.leave(op),
                    Verdict::Abort(error) => {
                        let Pass { config, home, force_update, stage, plan, at } = self;
                        Pass {
                            config,
                            home,
                            force_update,
                            stage: Stage::Finished(Err(error)),
                            plan,
                            at,
                        }
                    },
                }
            },
            _ => self,
        }
    }
}

/// At most one download is the first one without a destination.
proof fn lemma_first_unresolved_unique(
    home: Seq<char>,
    curl: Seq<DownloadView>,
    first: int,
    second: int,
)
    requires
        first_unresolved(home, curl, first),
    ensures
        first_unresolved(home, curl, second) ==> first == second,
        first_unresolved_index(home, curl) == first,
{
    if first_unresolved(home, curl, second) {
        if first < second {
            assert(resolved_destination(home, curl[first].dst) is Some);
        }
        if second < first {
            assert(resolved_destination(home, curl[second].dst) is Some);
        }
    }
    let chosen = first_unresolved_index(home, curl);
    if first < chosen {
        assert(resolved_destination(home, curl[first].dst) is Some);
    }
    if chosen < first {
        assert(resolved_destination(home, curl[chosen].dst) is Some);
    }
}

impl PassView {
    /// While an operation is running, its commands are those that its
    /// reconciler planned from some answers of the lookup tool.
    pub open spec fn planned(self) -> bool {
        self.stage matches StageView::Running(op) ==> exists|lookups: Seq<LookupView>|
            #[trigger] plan_for(self.config, self.home, self.force_update, op, lookups) == Ok::<
                PlanView,
                AppErrorView,
            >(self.plan)
    }
}

/// A pass starts with a command up next whenever it is running, and with
/// commands that a reconciler planned; no event changes that.
pub proof fn lemma_pass_stays_sound(pass: PassView, event: EventView)
    requires
        pass.well_formed(),
        pass.planned(),
    ensures
        pass.advance(event).well_formed(),
        pass.advance(event).planned(),
{
    match (pass.stage, event) {
        (StageView::Looking(op), EventView::Looked(lookups)) => {
            let planned = plan_for(pass.config, pass.home, pass.force_update, op, lookups);
            if planned is Ok {
                assert(pass.advance(event).plan == planned->Ok_0);
            }
        },
        _ => {},
    }
}

/// Before anything has happened, a pass is sound in the same sense.
pub proof fn lemma_initial_pass_sound(config: PackagesConfigView, home: Seq<char>, force: bool)
    ensures
        initial(config, home, force).well_formed(),
        initial(config, home, force).planned(),
{
}

/// No event changes what a pass reconciles: its configuration, the home
/// directory and whether updates are forced stay as they were.
pub proof fn lemma_pass_keeps_inputs(pass: PassView, events: Seq<EventView>)
    ensures
        pass.after(events).config == pass.config,
        pass.after(events).home == pass.home,
        pass.after(events).force_update == pass.force_update,
    decreases events.len(),
{
    if events.len() > 0 {
        lemma_pass_keeps_inputs(pass, events.drop_last());
    }
}

/// In a dry run no command is ever started, whatever the operation, the
/// command and the events reported: a pass then only asks for lookups and
/// recordings until it finishes, and every recording proceeds as a success.
pub proof fn lemma_dry_run_never_spawns(pass: PassView, events: Seq<EventView>)
    requires
        pass.config.dry_run,
    ensures
        !(pass.after(events).action() is Spawn),
        forall|op: Operation, program: Seq<char>| #[trigger]
            verdict(op, program, OutcomeView::Logged) == VerdictView::Proceed,
{
    lemma_pass_keeps_inputs(pass, events);
}

/// Outside a dry run no command is merely recorded: each is started.
pub proof fn lemma_real_run_never_logs(pass: PassView, events: Seq<EventView>)
    requires
        !pass.config.dry_run,
    ensures
        !(pass.after(events).action() is Log),
{
    lemma_pass_keeps_inputs(pass, events);
}

/// A pass never goes back: the operations come in their fixed order, and
/// within an operation the lookup comes before the commands.
pub proof fn lemma_pass_never_goes_back(pass: PassView, event: EventView)
    ensures
        pass.advance(event).progress() >= pass.progress(),
{
}

/// No command is handed out twice: once the outcome of a command is
/// reported, the pass is either at the next command of the same plan or
/// past the operation.
pub proof fn lemma_no_command_twice(pass: PassView, outcome: OutcomeView)
    requires
        pass.stage is Running,
    ensures
        ({
            let next = pass.advance(EventView::Done(outcome));
            ||| next.stage == pass.stage && next.plan == pass.plan && next.at == pass.at + 1
            ||| next.progress() > pass.progress()
        }),
{
}

/// A finished pass stays finished, with the same result.
pub proof fn lemma_finished_pass_stays(pass: PassView, events: Seq<EventView>)
    requires
        pass.stage is Finished,
    ensures
        pass.after(events) == pass,
    decreases events.len(),
{
    if events.len() > 0 {
        lemma_finished_pass_stays(pass, events.drop_last());
    }
}

/// A command that cannot be started ends the pass at once, with an error
/// that names its program: as not found, or with the cause of the failure.
/// Nothing of the remaining operations is carried out.
pub proof fn lemma_spawn_failure_ends_pass(
    pass: PassView,
    outcome: OutcomeView,
    events: Seq<EventView>,
)
    requires
        pass.stage is Running,
        outcome is NotFound || outcome is SpawnFailed,
    ensures
        pass.advance(EventView::Done(outcome)).stage == StageView::Finished(
            Err(
                match outcome {
                    OutcomeView::SpawnFailed(cause) => AppErrorView::IoError(
                        program(pass.current()),
                        cause,
                    ),
                    _ => AppErrorView::NoInstalledProg(program(pass.current())),
                },
            ),
        ),
        pass.advance(EventView::Done(outcome)).after(events) == pass.advance(
            EventView::Done(outcome),
        ),
{
    lemma_finished_pass_stays(pass.advance(EventView::Done(outcome)), events);
}

/// When the lookups show that no declared apt package is absent, the pass
/// goes from the apt packages straight on to the downloaded packages: it
/// hands out no command for them.
pub proof fn lemma_pass_skips_apt(pass: PassView, lookups: Seq<LookupView>)
    requires
        pass.stage == StageView::Looking(Operation::Apt),
        missing(pass.config.apt, lookups).len() == 0,
    ensures
        pass.advance(EventView::Looked(lookups)).stage == StageView::Looking(Operation::Debs),
{
}

/// While no command fails in a way that ends the operation, a running
/// operation hands out the commands of its plan one by one, each once and in
/// the order of the plan, and is left when the last one is answered.
pub proof fn lemma_operation_runs_its_plan(
    pass: PassView,
    op: Operation,
    outcomes: Seq<OutcomeView>,
)
    requires
        pass.stage == StageView::Running(op),
        pass.well_formed(),
        pass.at + outcomes.len() <= pass.plan.commands.len(),
        forall|i: int, started: Seq<char>|
            0 <= i < outcomes.len() ==> #[trigger] verdict(op, started, outcomes[i]) is Proceed,
    ensures
        pass.after(reports(outcomes)) == pass.resume(op, (pass.at + outcomes.len()) as nat),
        pass.handed_out(reports(outcomes)) == pass.plan.commands.subrange(
            pass.at as int,
            (pass.at + outcomes.len()) as int,
        ),
    decreases outcomes.len(),
{
    let events = reports(outcomes);
    if outcomes.len() == 0 {
        assert(pass.resume(op, pass.at) == pass);
        assert(pass.handed_out(events) =~= pass.plan.commands.subrange(
            pass.at as int,
            pass.at as int,
        ));
    } else {
        let rest = outcomes.drop_last();
        assert(events.drop_last() =~= reports(rest));
        assert(events.last() == EventView::Done(outcomes.last()));
        lemma_operation_runs_its_plan(pass, op, rest);
        let before = pass.after(reports(rest));
        assert(before == pass.resume(op, (pass.at + rest.len()) as nat));
        assert(before.stage == StageView::Running(op));
        assert(before.at == pass.at + rest.len());
        assert(verdict(op, program(before.current()), outcomes[outcomes.len() - 1]) is Proceed);
        assert(pass.after(events) == before.advance(events.last()));
        assert(pass.handed_out(events) =~= pass.plan.commands.subrange(
            pass.at as int,
            (pass.at + outcomes.len()) as int,
        ));
    }
}

/// Events taken in one after the other have the effect of taking in the
/// first part and then the rest.
pub proof fn lemma_events_in_parts(pass: PassView, first: Seq<EventView>, rest: Seq<EventView>)
    ensures
        pass.after(first + rest) == pass.after(first).after(rest),
        pass.handed_out(first + rest) == pass.handed_out(first) + pass.after(first).handed_out(
            rest,
        ),
    decreases rest.len(),
{
    if rest.len() == 0 {
        assert(first + rest =~= first);
        assert(pass.handed_out(first) + Seq::<InvocationView>::empty() =~= pass.handed_out(
            first,
        ));
    } else {
        assert((first + rest).drop_last() =~= first + rest.drop_last());
        assert((first + rest).last() == rest.last());
        lemma_events_in_parts(pass, first, rest.drop_last());
        let middle = pass.after(first);
        let before = middle.after(rest.drop_last());
        if before.stage is Running && rest.last() is Done {
            assert(pass.handed_out(first + rest) =~= pass.handed_out(first)
                + middle.handed_out(rest));
        }
    }
}

/// An operation in which nothing fails hands out exactly the commands that
/// its reconciler planned from the answers of the lookup tool, in the order
/// of the plan, and then is left.
pub proof fn lemma_smooth_operation(pass: PassView, op: Operation, lookups: Seq<LookupView>)
    requires
        pass.stage == StageView::Looking(op),
        plan_for(pass.config, pass.home, pass.force_update, op, lookups) is Ok,
    ensures
        ({
            let plan = plan_for(pass.config, pass.home, pass.force_update, op, lookups)->Ok_0;
            let events = smooth_operation(lookups, plan);
            &&& pass.after(events) == (PassView {
                plan,
                at: plan.commands.len(),
                ..pass
            }).leave(op)
            &&& pass.handed_out(events) == plan.commands
        }),
{
    let plan = plan_for(pass.config, pass.home, pass.force_update, op, lookups)->Ok_0;
    let looked = seq![EventView::Looked(lookups)];
    let exits = successes(plan.commands.len());
    assert(looked.drop_last() =~= Seq::<EventView>::empty());
    assert(pass.after(looked.drop_last()) == pass);
    assert(pass.after(looked) == pass.advance(EventView::Looked(lookups)));
    assert(pass.handed_out(looked.drop_last()) =~= Seq::<InvocationView>::empty());
    assert(pass.handed_out(looked) =~= Seq::<InvocationView>::empty());
    let begun = pass.after(looked);
    lemma_events_in_parts(pass, looked, reports(exits));
    if plan.commands.len() == 0 {
        assert(reports(exits) =~= Seq::<EventView>::empty());
        assert(begun.handed_out(reports(exits)) =~= Seq::<InvocationView>::empty());
        assert(pass.handed_out(smooth_operation(lookups, plan)) =~= plan.commands);
    } else {
        lemma_operation_runs_its_plan(begun, op, exits);
        assert(begun.handed_out(reports(exits)) =~= plan.commands);
        assert(pass.handed_out(smooth_operation(lookups, plan)) =~= plan.commands);
    }
}

/// A pass in which nothing fails carries out the five operations in their
/// fixed order and ends with success: the commands handed out are those for
/// the PPAs, then those for the apt packages, the downloaded packages and the
/// cargo packages, each planned from the answers to its own lookups, then
/// those for the direct downloads.
pub proof fn lemma_smooth_pass(
    config: PackagesConfigView,
    home: Seq<char>,
    force_update: bool,
    apt_lookups: Seq<LookupView>,
    deb_lookups: Seq<LookupView>,
    cargo_lookups: Seq<LookupView>,
)
    requires
        all_resolved(home, config.curl),
    ensures
        ({
            let ppas = ppa_plan(config.ppas);
            let apt = apt_plan(config.apt, apt_lookups);
            let debs = deb_plan(config.temp_dir, config.debs, deb_lookups, force_update);
            let cargo = cargo_plan(config.cargo, cargo_lookups);
            let curl = curl_plan(home, config.curl);
            let events = smooth_operation(Seq::empty(), ppas) + smooth_operation(
                apt_lookups,
                apt,
            ) + smooth_operation(deb_lookups, debs) + smooth_operation(cargo_lookups, cargo)
                + smooth_operation(Seq::empty(), curl);
            &&& initial(config, home, force_update).after(events).stage == StageView::Finished(
                Ok(()),
            )
            &&& initial(config, home, force_update).handed_out(events) == ppas.commands
                + apt.commands + debs.commands + cargo.commands + curl.commands
        }),
{
    let ppas = ppa_plan(config.ppas);
    let apt = apt_plan(config.apt, apt_lookups);
    let debs = deb_plan(config.temp_dir, config.debs, deb_lookups, force_update);
    let cargo = cargo_plan(config.cargo, cargo_lookups);
    let curl = curl_plan(home, config.curl);
    let none = Seq::<LookupView>::empty();
    let e0 = smooth_operation(none, ppas);
    let e1 = smooth_operation(apt_lookups, apt);
    let e2 = smooth_operation(deb_lookups, debs);
    let e3 = smooth_operation(cargo_lookups, cargo);
    let e4 = smooth_operation(none, curl);
    let s0 = initial(config, home, force_update);
    lemma_smooth_operation(s0, Operation::Ppas, none);
    let s1 = s0.after(e0);
    lemma_smooth_operation(s1, Operation::Apt, apt_lookups);
    lemma_events_in_parts(s0, e0, e1);
    let s2 = s0.after(e0 + e1);
    lemma_smooth_operation(s2, Operation::Debs, deb_lookups);
    lemma_events_in_parts(s0, e0 + e1, e2);
    let s3 = s0.after(e0 + e1 + e2);
    lemma_smooth_operation(s3, Operation::Cargo, cargo_lookups);
    lemma_events_in_parts(s0, e0 + e1 + e2, e3);
    let s4 = s0.after(e0 + e1 + e2 + e3);
    lemma_smooth_operation(s4, Operation::Curls, none);
    lemma_events_in_parts(s0, e0 + e1 + e2 + e3, e4);
}

} // verus!
