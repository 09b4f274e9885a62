//! The decisions of `cliup run` as a state machine. The caller performs what
//! each step asks (log and print the effects, then probe for a command or
//! execute one) and hands back the outcome; the machine decides what comes
//! next: which packages are skipped, which commands run, what is logged.
use vstd::prelude::*;

use crate::config::{kind_name, Package, PackageType, PackageView};
use crate::runner::{command_display, display_spec, sh_quote_spec, shell_quote};
use crate::text::{owned, push_str, views};

verus! {

/// A line for the update log (`Info`, which the logger stamps with the
/// time) or for standard output (`Print`).
pub enum Effect {
    Info(String),
    Print(String),
}

/// An external command to run, with its displayed command line and the
/// context reported when it cannot be started.
pub struct Invocation {
    pub program: String,
    pub args: Vec<String>,
    pub display: String,
    pub context: String,
}

/// What the caller does after the effects of a step.
pub enum Request {
    /// Tell whether the command is an executable on the search path.
    Probe(String),
    /// Run the command, log its result, and tell whether it succeeded.
    Execute(Invocation),
    /// Step again; nothing outside is needed.
    Continue,
    /// The run is over.
    Finished,
}

/// What the caller hands back: the answer to a probe or an execution, or a
/// failure (a command that could not be started, a log that could not be
/// written) with its full text and its summary.
pub enum Outcome {
    Yes,
    No,
    Failed { detail: String, summary: String },
}

/// Where the run stands.
#[derive(Clone, Copy, PartialEq, Eq, Structural, Debug)]
pub enum Phase {
    Begin,
    Enter,
    AwaitTool,
    AwaitBrewUpdate,
    AwaitListed,
    AwaitUpgrade,
    AwaitSelf,
    Finishing,
    Done,
}

/// What one step asks of the caller. `in_package` says whether a log write
/// that fails during these effects is a failure of the current package
/// (which the run reports and moves past) rather than of the whole run.
pub struct Step {
    pub effects: Vec<Effect>,
    pub request: Request,
    pub in_package: bool,
}

/// A run over the configured packages.
pub struct UpdateRun {
    packages: Vec<Package>,
    dry_run: bool,
    index: usize,
    phase: Phase,
    brew_updated: bool,
}

// ---------------------------------------------------------------------------
// Views
// ---------------------------------------------------------------------------

pub enum EffectView {
    Info(Seq<char>),
    Print(Seq<char>),
}

pub struct InvocationView {
    pub program: Seq<char>,
    pub args: Seq<Seq<char>>,
    pub display: Seq<char>,
    pub context: Seq<char>,
}

pub enum RequestView {
    Probe(Seq<char>),
    Execute(InvocationView),
    Continue,
    Finished,
}

pub enum OutcomeView {
    Yes,
    No,
    Failed { detail: Seq<char>, summary: Seq<char> },
}

pub struct StepView {
    pub effects: Seq<EffectView>,
    pub request: RequestView,
    pub in_package: bool,
}

pub struct RunView {
    pub packages: Seq<PackageView>,
    pub dry_run: bool,
    pub index: int,
    pub phase: Phase,
    pub brew_updated: bool,
}

impl View for Effect {
    type V = EffectView;

    open spec fn view(&self) -> EffectView {
        match self {
            Effect::Info(s) => EffectView::Info(s@),
            Effect::Print(s) => EffectView::Print(s@),
        }
    }
}

pub open spec fn effect_views(es: Seq<Effect>) -> Seq<EffectView> {
    es.map_values(|e: Effect| e@)
}

impl View for Invocation {
    type V = InvocationView;

    open spec fn view(&self) -> InvocationView {
        InvocationView {
            program: self.program@,
            args: views(self.args@),
            display: self.display@,
            context: self.context@,
        }
    }
}

impl View for Request {
    type V = RequestView;

    open spec fn view(&self) -> RequestView {
        match self {
            Request::Probe(s) => RequestView::Probe(s@),
            Request::Execute(i) => RequestView::Execute(i@),
            Request::Continue => RequestView::Continue,
            Request::Finished => RequestView::Finished,
        }
    }
}

impl View for Outcome {
    type V = OutcomeView;

    open spec fn view(&self) -> OutcomeView {
        match self {
            Outcome::Yes => OutcomeView::Yes,
            Outcome::No => OutcomeView::No,
            Outcome::Failed { detail, summary } => OutcomeView::Failed {
                detail: detail@,
                summary: summary@,
            },
        }
    }
}

impl View for Step {
    type V = StepView;

    open spec fn view(&self) -> StepView {
        StepView {
            effects: effect_views(self.effects@),
            request: self.request@,
            in_package: self.in_package,
        }
    }
}

impl View for UpdateRun {
    type V = RunView;

    closed spec fn view(&self) -> RunView {
        RunView {
            packages: self.packages@.map_values(|p: Package| p@),
            dry_run: self.dry_run,
            index: self.index as int,
            phase: self.phase,
            brew_updated: self.brew_updated,
        }
    }
}

// ---------------------------------------------------------------------------
// What each package runs and says
// ---------------------------------------------------------------------------

/// The tool that manages a package: `npm` for npm packages, `brew` for
/// formulae and casks.
pub open spec fn tool_of(t: PackageType) -> Seq<char> {
    match t {
        PackageType::Npm => "npm"@,
        _ => "brew"@,
    }
}

/// The arguments of the command that tells whether the package is
/// installed.
pub open spec fn list_args(p: PackageView) -> Seq<Seq<char>> {
    match p.package_type {
        PackageType::Npm => seq!["ls"@, "-g"@, "--depth=0"@, p.name],
        PackageType::Cask => seq!["list"@, "--cask"@, p.name],
        _ => seq!["list"@, "--formula"@, p.name],
    }
}

/// The arguments of the command that updates the package.
pub open spec fn upgrade_args(p: PackageView) -> Seq<Seq<char>> {
    match p.package_type {
        PackageType::Npm => seq!["i"@, "-g"@, p.name + "@latest"@],
        PackageType::Cask => seq!["upgrade"@, "--cask"@, p.name],
        _ => seq!["upgrade"@, p.name],
    }
}

/// Running `program args...`; its failure to start is reported with the
/// displayed command line.
pub open spec fn program_call(program: Seq<char>, args: Seq<Seq<char>>) -> InvocationView {
    InvocationView {
        program,
        args,
        display: display_spec(program, args),
        context: "failed to run "@ + display_spec(program, args),
    }
}

pub open spec fn list_call(p: PackageView) -> InvocationView {
    program_call(tool_of(p.package_type), list_args(p))
}

pub open spec fn upgrade_call(p: PackageView) -> InvocationView {
    program_call(tool_of(p.package_type), upgrade_args(p))
}

pub open spec fn brew_update_call() -> InvocationView {
    program_call("brew"@, seq!["update"@])
}

/// The trusted command of a `self` package (empty when absent).
pub open spec fn self_command(p: PackageView) -> Seq<char> {
    match p.command {
        Some(c) => c,
        None => seq![],
    }
}

/// The command line shown for a `self` package.
pub open spec fn self_display(p: PackageView) -> Seq<char> {
    "sh -lc "@ + sh_quote_spec(self_command(p))
}

/// Running a `self` package's command through a login shell.
pub open spec fn self_call(p: PackageView) -> InvocationView {
    InvocationView {
        program: "sh"@,
        args: seq!["-lc"@, self_command(p)],
        display: self_display(p),
        context: "failed to run self command for "@ + p.name,
    }
}

pub open spec fn checking_msg(p: PackageView) -> Seq<char> {
    "checking "@ + kind_name(p.package_type) + " "@ + p.name
}

pub open spec fn tool_missing_msg(p: PackageView) -> Seq<char> {
    tool_of(p.package_type) + " not found; skipping "@ + p.name
}

pub open spec fn not_installed_msg(p: PackageView) -> Seq<char> {
    match p.package_type {
        PackageType::Npm => "npm package "@ + p.name + " is not installed globally"@,
        PackageType::Cask => "brew cask "@ + p.name + " is not installed"@,
        _ => "brew formula "@ + p.name + " is not installed"@,
    }
}

pub open spec fn package_kind_text(t: PackageType) -> Seq<char> {
    match t {
        PackageType::Npm => "npm package"@,
        PackageType::Cask => "brew cask"@,
        _ => "brew formula"@,
    }
}

pub open spec fn dry_check_msg(p: PackageView) -> Seq<char> {
    "dry-run: would check and update "@ + package_kind_text(p.package_type) + " "@ + p.name
        + " if installed"@
}

pub open spec fn skip_effects(msg: Seq<char>) -> Seq<EffectView> {
    seq![EffectView::Info("skip: "@ + msg), EffectView::Print("skip: "@ + msg)]
}

pub open spec fn dry_log(display: Seq<char>) -> EffectView {
    EffectView::Info("dry-run: "@ + display)
}

pub open spec fn continue_msg(display: Seq<char>) -> EffectView {
    EffectView::Info("command failed but run will continue: "@ + display)
}

pub open spec fn error_effects(p: PackageView, detail: Seq<char>, summary: Seq<char>) -> Seq<
    EffectView,
> {
    seq![
        EffectView::Info(
            "error while updating "@ + kind_name(p.package_type) + " "@ + p.name + ": "@ + detail,
        ),
        EffectView::Print(
            "error: "@ + kind_name(p.package_type) + " "@ + p.name + " ("@ + summary + ")"@,
        ),
    ]
}

pub open spec fn dry_mode_msg() -> Seq<char> {
    "dry-run mode enabled; no update commands will be executed"@
}

// ---------------------------------------------------------------------------
// The transitions
// ---------------------------------------------------------------------------

pub open spec fn step_of(effects: Seq<EffectView>, request: RequestView, in_package: bool) -> StepView {
    StepView { effects, request, in_package }
}

/// The phases in which a package is being worked on.
pub open spec fn working(ph: Phase) -> bool {
    ph == Phase::AwaitTool || ph == Phase::AwaitBrewUpdate || ph == Phase::AwaitListed || ph
        == Phase::AwaitUpgrade || ph == Phase::AwaitSelf || ph == Phase::Finishing
}

/// The run's position is within the package list, and strictly so while a
/// package is being worked on.
pub open spec fn run_wf(s: RunView) -> bool {
    &&& 0 <= s.index <= s.packages.len()
    &&& working(s.phase) ==> s.index < s.packages.len()
    &&& s.phase == Phase::Done ==> s.index == s.packages.len()
    &&& s.dry_run ==> !(s.phase == Phase::AwaitBrewUpdate || s.phase == Phase::AwaitListed
        || s.phase == Phase::AwaitUpgrade || s.phase == Phase::AwaitSelf)
    &&& (s.phase == Phase::AwaitTool || s.phase == Phase::AwaitBrewUpdate || s.phase
        == Phase::AwaitListed || s.phase == Phase::AwaitUpgrade) ==> s.packages[s.index].package_type
        != PackageType::SelfUpdate
    &&& s.phase == Phase::AwaitBrewUpdate ==> s.packages[s.index].package_type != PackageType::Npm
}

pub open spec fn finish(s: RunView) -> RunView {
    RunView { phase: Phase::Finishing, ..s }
}

/// Starting the package at the current position, or ending the run when
/// there is none.
pub open spec fn enter_spec(s: RunView) -> (RunView, StepView) {
    if s.index >= s.packages.len() {
        (
            RunView { phase: Phase::Done, ..s },
            step_of(
                seq![EffectView::Info("run finished"@), EffectView::Print("done"@)],
                RequestView::Finished,
                false,
            ),
        )
    } else {
        let p = s.packages[s.index];
        let check = EffectView::Print(checking_msg(p));
        match p.package_type {
            PackageType::SelfUpdate => if s.dry_run {
                (
                    finish(s),
                    step_of(
                        seq![
                            check,
                            dry_log(self_display(p)),
                            EffectView::Print("dry-run: "@ + self_display(p)),
                        ],
                        RequestView::Continue,
                        true,
                    ),
                )
            } else {
                (
                    RunView { phase: Phase::AwaitSelf, ..s },
                    step_of(seq![check], RequestView::Execute(self_call(p)), true),
                )
            },
            _ => (
                RunView { phase: Phase::AwaitTool, ..s },
                step_of(seq![check], RequestView::Probe(tool_of(p.package_type)), true),
            ),
        }
    }
}

/// After the probe for the package's tool.
pub open spec fn tool_spec(s: RunView, found: bool) -> (RunView, StepView) {
    let p = s.packages[s.index];
    if !found {
        (finish(s), step_of(skip_effects(tool_missing_msg(p)), RequestView::Continue, true))
    } else if s.dry_run {
        let checks = seq![
            dry_log(list_call(p).display),
            dry_log(upgrade_call(p).display),
            EffectView::Print(dry_check_msg(p)),
        ];
        match p.package_type {
            PackageType::Npm => (finish(s), step_of(checks, RequestView::Continue, true)),
            _ => {
                let update: Seq<EffectView> = if s.brew_updated {
                    seq![]
                } else {
                    seq![
                        dry_log(brew_update_call().display),
                        EffectView::Print("dry-run: "@ + brew_update_call().display),
                    ]
                };
                (
                    RunView { phase: Phase::Finishing, brew_updated: true, ..s },
                    step_of(update + checks, RequestView::Continue, true),
                )
            },
        }
    } else {
        match p.package_type {
            PackageType::Npm => (
                RunView { phase: Phase::AwaitListed, ..s },
                step_of(seq![], RequestView::Execute(list_call(p)), true),
            ),
            _ => if s.brew_updated {
                (
                    RunView { phase: Phase::AwaitListed, ..s },
                    step_of(seq![], RequestView::Execute(list_call(p)), true),
                )
            } else {
                (
                    RunView { phase: Phase::AwaitBrewUpdate, brew_updated: true, ..s },
                    step_of(seq![], RequestView::Execute(brew_update_call()), true),
                )
            },
        }
    }
}

/// After `brew update`.
pub open spec fn brew_updated_spec(s: RunView, ok: bool) -> (RunView, StepView) {
    let p = s.packages[s.index];
    let effects: Seq<EffectView> = if ok {
        seq![]
    } else {
        seq![continue_msg(brew_update_call().display)]
    };
    (
        RunView { phase: Phase::AwaitListed, ..s },
        step_of(effects, RequestView::Execute(list_call(p)), true),
    )
}

/// After the installed check.
pub open spec fn listed_spec(s: RunView, installed: bool) -> (RunView, StepView) {
    let p = s.packages[s.index];
    if installed {
        (
            RunView { phase: Phase::AwaitUpgrade, ..s },
            step_of(seq![], RequestView::Execute(upgrade_call(p)), true),
        )
    } else {
        (finish(s), step_of(skip_effects(not_installed_msg(p)), RequestView::Continue, true))
    }
}

/// After the update command (the upgrade, or a `self` package's command).
pub open spec fn updated_spec(s: RunView, display: Seq<char>, ok: bool) -> (RunView, StepView) {
    let effects: Seq<EffectView> = if ok {
        seq![]
    } else {
        seq![continue_msg(display)]
    };
    (finish(s), step_of(effects, RequestView::Continue, true))
}

/// One step of the run, on the outcome of what the previous step asked.
pub open spec fn step_spec(s: RunView, o: OutcomeView) -> (RunView, StepView) {
    match o {
        OutcomeView::Failed { detail, summary } if working(s.phase) => (
            RunView { index: s.index + 1, phase: Phase::Enter, ..s },
            step_of(
                error_effects(s.packages[s.index], detail, summary),
                RequestView::Continue,
                false,
            ),
        ),
        _ => {
            let yes = o is Yes;
            match s.phase {
                Phase::Begin => (
                    RunView { phase: Phase::Enter, ..s },
                    step_of(
                        if s.dry_run {
                            seq![EffectView::Info(dry_mode_msg())]
                        } else {
                            seq![]
                        },
                        RequestView::Continue,
                        false,
                    ),
                ),
                Phase::Enter => enter_spec(s),
                Phase::AwaitTool => tool_spec(s, yes),
                Phase::AwaitBrewUpdate => brew_updated_spec(s, yes),
                Phase::AwaitListed => listed_spec(s, yes),
                Phase::AwaitUpgrade => updated_spec(s, upgrade_call(s.packages[s.index]).display, yes),
                Phase::AwaitSelf => updated_spec(s, self_display(s.packages[s.index]), yes),
                Phase::Finishing => (
                    RunView { index: s.index + 1, phase: Phase::Enter, ..s },
                    step_of(seq![], RequestView::Continue, false),
                ),
                Phase::Done => (s, step_of(seq![], RequestView::Finished, false)),
            }
        },
    }
}

// ---------------------------------------------------------------------------
// Building the texts and commands
// ---------------------------------------------------------------------------

fn concat3(a: &str, b: &str, c: &str) -> (r: String)
    ensures
        r@ == a@ + b@ + c@,
{
    let mut r = owned(a);
    push_str(&mut r, b);
    push_str(&mut r, c);
    r
}

fn concat2(a: &str, b: &str) -> (r: String)
    ensures
        r@ == a@ + b@,
{
    let mut r = owned(a);
    push_str(&mut r, b);
    r
}

fn info(text: String) -> (r: Effect)
    ensures
        r@ == EffectView::Info(text@),
{
    Effect::Info(text)
}

fn print(text: String) -> (r: Effect)
    ensures
        r@ == EffectView::Print(text@),
{
    Effect::Print(text)
}

fn tool_name(t: PackageType) -> (r: &'static str)
    ensures
        r@ == tool_of(t),
{
    match t {
        PackageType::Npm => "npm",
        _ => "brew",
    }
}

fn call(program: &str, args: Vec<String>) -> (r: Invocation)
    ensures
        r@ == program_call(program@, views(args@)),
{
    let display = command_display(program, &args);
    let mut context = owned("failed to run ");
    push_str(&mut context, display.as_str());
    Invocation { program: owned(program), args, display, context }
}

pub(crate) fn list_invocation(p: &Package) -> (r: Invocation)
    ensures
        r@ == list_call(p@),
{
    let mut args: Vec<String> = Vec::new();
    match p.package_type {
        PackageType::Npm => {
            args.push(owned("ls"));
            args.push(owned("-g"));
            args.push(owned("--depth=0"));
        },
        PackageType::Cask => {
            args.push(owned("list"));
            args.push(owned("--cask"));
        },
        _ => {
            args.push(owned("list"));
            args.push(owned("--formula"));
        },
    }
    args.push(p.name.clone());
    assert(views(args@) =~= list_args(p@));
    call(tool_name(p.package_type), args)
}

fn upgrade_invocation(p: &Package) -> (r: Invocation)
    ensures
        r@ == upgrade_call(p@),
{
    let mut args: Vec<String> = Vec::new();
    match p.package_type {
        PackageType::Npm => {
            args.push(owned("i"));
            args.push(owned("-g"));
            let mut latest = p.name.clone();
            push_str(&mut latest, "@latest");
            args.push(latest);
        },
        PackageType::Cask => {
            args.push(owned("upgrade"));
            args.push(owned("--cask"));
            args.push(p.name.clone());
        },
        _ => {
            args.push(owned("upgrade"));
            args.push(p.name.clone());
        },
    }
    assert(views(args@) =~= upgrade_args(p@));
    call(tool_name(p.package_type), args)
}

fn brew_update_invocation() -> (r: Invocation)
    ensures
        r@ == brew_update_call(),
{
    let mut args: Vec<String> = Vec::new();
    args.push(owned("update"));
    assert(views(args@) =~= seq!["update"@]);
    call("brew", args)
}

fn self_command_text(p: &Package) -> (r: String)
    ensures
        r@ == self_command(p@),
{
    match &p.command {
        Some(c) => c.clone(),
        None => String::new(),
    }
}

fn self_display_text(p: &Package) -> (r: String)
    ensures
        r@ == self_display(p@),
{
    let command = self_command_text(p);
    let q = shell_quote(command.as_str());
    let mut r = owned("sh -lc ");
    push_str(&mut r, q.as_str());
    r
}

fn self_invocation(p: &Package) -> (r: Invocation)
    ensures
        r@ == self_call(p@),
{
    let mut args: Vec<String> = Vec::new();
    args.push(owned("-lc"));
    args.push(self_command_text(p));
    assert(views(args@) =~= seq!["-lc"@, self_command(p@)]);
    let mut context = owned("failed to run self command for ");
    push_str(&mut context, p.name.as_str());
    Invocation { program: owned("sh"), args, display: self_display_text(p), context }
}

fn checking_text(p: &Package) -> (r: String)
    ensures
        r@ == checking_msg(p@),
{
    let mut r = concat3("checking ", p.package_type.as_str(), " ");
    push_str(&mut r, p.name.as_str());
    r
}

fn tool_missing_text(p: &Package) -> (r: String)
    ensures
        r@ == tool_missing_msg(p@),
{
    concat3(tool_name(p.package_type), " not found; skipping ", p.name.as_str())
}

fn not_installed_text(p: &Package) -> (r: String)
    ensures
        r@ == not_installed_msg(p@),
{
    match p.package_type {
        PackageType::Npm => concat3("npm package ", p.name.as_str(), " is not installed globally"),
        PackageType::Cask => concat3("brew cask ", p.name.as_str(), " is not installed"),
        _ => concat3("brew formula ", p.name.as_str(), " is not installed"),
    }
}

fn dry_check_text(p: &Package) -> (r: String)
    ensures
        r@ == dry_check_msg(p@),
{
    let kind = match p.package_type {
        PackageType::Npm => "npm package",
        PackageType::Cask => "brew cask",
        _ => "brew formula",
    };
    let mut r = concat3("dry-run: would check and update ", kind, " ");
    push_str(&mut r, p.name.as_str());
    push_str(&mut r, " if installed");
    r
}

fn push_skip(effects: &mut Vec<Effect>, msg: &str)
    ensures
        effect_views(final(effects)@) == effect_views(old(effects)@) + skip_effects(msg@),
{
    let ghost before = effect_views(effects@);
    effects.push(info(concat2("skip: ", msg)));
    effects.push(print(concat2("skip: ", msg)));
    assert(effect_views(effects@) =~= before + skip_effects(msg@));
}

fn dry_log_effect(display: &str) -> (r: Effect)
    ensures
        r@ == dry_log(display@),
{
    info(concat2("dry-run: ", display))
}

fn continue_effect(display: &str) -> (r: Effect)
    ensures
        r@ == continue_msg(display@),
{
    info(concat2("command failed but run will continue: ", display))
}

fn one(e: Effect) -> (r: Vec<Effect>)
    ensures
        effect_views(r@) == seq![e@],
{
    let mut v: Vec<Effect> = Vec::new();
    v.push(e);
    assert(effect_views(v@) =~= seq![e@]);
    v
}

fn make_step(effects: Vec<Effect>, request: Request, in_package: bool) -> (r: Step)
    ensures
        r@ == step_of(effect_views(effects@), request@, in_package),
{
    Step { effects, request, in_package }
}

// ---------------------------------------------------------------------------
// The machine
// ---------------------------------------------------------------------------

impl UpdateRun {
    /// A run over `packages`, in their order; in a dry run no update
    /// command is executed.
    pub fn new(packages: Vec<Package>, dry_run: bool) -> (r: UpdateRun)
        ensures
            r@ == (RunView {
                packages: packages@.map_values(|p: Package| p@),
                dry_run,
                index: 0,
                phase: Phase::Begin,
                brew_updated: false,
            }),
            run_wf(r@),
    {
        UpdateRun { packages, dry_run, index: 0, phase: Phase::Begin, brew_updated: false }
    }

    /// The run is within its package list.
    pub open spec fn wf(&self) -> bool {
        run_wf(self@)
    }

    fn package_at(&self) -> (r: &Package)
        requires
            self.index < self.packages.len(),
        ensures
            r@ == self@.packages[self.index as int],
    {
        &self.packages[self.index]
    }

    fn enter(&mut self) -> (r: Step)
        requires
            old(self).wf(),
            old(self).phase == Phase::Enter,
        ensures
            (final(self)@, r@) == enter_spec(old(self)@),
    {
        if self.index >= self.packages.len() {
            self.phase = Phase::Done;
            let mut effects: Vec<Effect> = Vec::new();
            effects.push(info(owned("run finished")));
            effects.push(print(owned("done")));
            assert(effect_views(effects@) =~= seq![
                EffectView::Info("run finished"@),
                EffectView::Print("done"@),
            ]);
            return make_step(effects, Request::Finished, false);
        }
        let p = self.package_at();
        let ghost pv = p@;
        let mut effects = one(print(checking_text(p)));
        let ghost first = effect_views(effects@);
        match p.package_type {
            PackageType::SelfUpdate => {
                if self.dry_run {
                    let display = self_display_text(p);
                    let e1 = dry_log_effect(display.as_str());
                    let e2 = print(concat2("dry-run: ", display.as_str()));
                    let ghost v1 = e1@;
                    let ghost v2 = e2@;
                    effects.push(e1);
                    assert(effect_views(effects@) =~= first.push(v1));
                    effects.push(e2);
                    assert(effect_views(effects@) =~= first.push(v1).push(v2));
                    assert(effect_views(effects@) =~= seq![
                        EffectView::Print(checking_msg(pv)),
                        dry_log(self_display(pv)),
                        EffectView::Print("dry-run: "@ + self_display(pv)),
                    ]);
                    self.phase = Phase::Finishing;
                    make_step(effects, Request::Continue, true)
                } else {
                    let inv = self_invocation(p);
                    self.phase = Phase::AwaitSelf;
                    make_step(effects, Request::Execute(inv), true)
                }
            },
            _ => {
                let tool = owned(tool_name(p.package_type));
                self.phase = Phase::AwaitTool;
                make_step(effects, Request::Probe(tool), true)
            },
        }
    }

    fn after_tool(&mut self, found: bool) -> (r: Step)
        requires
            old(self).wf(),
            old(self).phase == Phase::AwaitTool,
        ensures
            (final(self)@, r@) == tool_spec(old(self)@, found),
    {
        let p = self.package_at();
        let ghost pv = p@;
        if !found {
            let mut effects: Vec<Effect> = Vec::new();
            let msg = tool_missing_text(p);
            push_skip(&mut effects, msg.as_str());
            assert(effect_views(effects@) =~= skip_effects(tool_missing_msg(pv)));
            self.phase = Phase::Finishing;
            return make_step(effects, Request::Continue, true);
        }
        if self.dry_run {
            let mut effects: Vec<Effect> = Vec::new();
            let is_npm = p.package_type == PackageType::Npm;
            if !is_npm && !self.brew_updated {
                let update = brew_update_invocation();
                effects.push(dry_log_effect(update.display.as_str()));
                effects.push(print(concat2("dry-run: ", update.display.as_str())));
            }
            let ghost update_part = effect_views(effects@);
            assert(update_part =~= if is_npm || self.brew_updated {
                seq![]
            } else {
                seq![
                    dry_log(brew_update_call().display),
                    EffectView::Print("dry-run: "@ + brew_update_call().display),
                ]
            });
            let list = list_invocation(p);
            let upgrade = upgrade_invocation(p);
            effects.push(dry_log_effect(list.display.as_str()));
            effects.push(dry_log_effect(upgrade.display.as_str()));
            effects.push(print(dry_check_text(p)));
            assert(effect_views(effects@) =~= update_part + seq![
                dry_log(list_call(pv).display),
                dry_log(upgrade_call(pv).display),
                EffectView::Print(dry_check_msg(pv)),
            ]);
            if is_npm {
                assert(effect_views(effects@) =~= seq![
                    dry_log(list_call(pv).display),
                    dry_log(upgrade_call(pv).display),
                    EffectView::Print(dry_check_msg(pv)),
                ]);
            }
            if !is_npm {
                self.brew_updated = true;
            }
            self.phase = Phase::Finishing;
            return make_step(effects, Request::Continue, true);
        }
        let effects: Vec<Effect> = Vec::new();
        assert(effect_views(effects@) =~= seq![]);
        if p.package_type == PackageType::Npm || self.brew_updated {
            let inv = list_invocation(p);
            self.phase = Phase::AwaitListed;
            make_step(effects, Request::Execute(inv), true)
        } else {
            let inv = brew_update_invocation();
            self.brew_updated = true;
            self.phase = Phase::AwaitBrewUpdate;
            make_step(effects, Request::Execute(inv), true)
        }
    }

    fn after_brew_update(&mut self, ok: bool) -> (r: Step)
        requires
            old(self).wf(),
            old(self).phase == Phase::AwaitBrewUpdate,
        ensures
            (final(self)@, r@) == brew_updated_spec(old(self)@, ok),
    {
        let p = self.package_at();
        let mut effects: Vec<Effect> = Vec::new();
        if !ok {
            let update = brew_update_invocation();
            effects.push(continue_effect(update.display.as_str()));
        }
        assert(effect_views(effects@) =~= if ok {
            seq![]
        } else {
            seq![continue_msg(brew_update_call().display)]
        });
        let inv = list_invocation(p);
        self.phase = Phase::AwaitListed;
        make_step(effects, Request::Execute(inv), true)
    }

    fn after_list(&mut self, installed: bool) -> (r: Step)
        requires
            old(self).wf(),
            old(self).phase == Phase::AwaitListed,
        ensures
            (final(self)@, r@) == listed_spec(old(self)@, installed),
    {
        let p = self.package_at();
        let ghost pv = p@;
        if installed {
            let inv = upgrade_invocation(p);
            let effects: Vec<Effect> = Vec::new();
            assert(effect_views(effects@) =~= seq![]);
            self.phase = Phase::AwaitUpgrade;
            make_step(effects, Request::Execute(inv), true)
        } else {
            let mut effects: Vec<Effect> = Vec::new();
            let msg = not_installed_text(p);
            push_skip(&mut effects, msg.as_str());
            assert(effect_views(effects@) =~= skip_effects(not_installed_msg(pv)));
            self.phase = Phase::Finishing;
            make_step(effects, Request::Continue, true)
        }
    }

    fn after_update(&mut self, display: String, ok: bool) -> (r: Step)
        requires
            old(self).wf(),
            working(old(self).phase),
        ensures
            (final(self)@, r@) == updated_spec(old(self)@, display@, ok),
    {
        let mut effects: Vec<Effect> = Vec::new();
        if !ok {
            effects.push(continue_effect(display.as_str()));
        }
        assert(effect_views(effects@) =~= if ok {
            seq![]
        } else {
            seq![continue_msg(display@)]
        });
        self.phase = Phase::Finishing;
        make_step(effects, Request::Continue, true)
    }

    /// Takes the outcome of what the previous step asked (any outcome at the
    /// first step) and decides the next effects and request.
    pub fn step(&mut self, outcome: Outcome) -> (r: Step)
        requires
            old(self).wf(),
        ensures
            final(self).wf(),
            (final(self)@, r@) == step_spec(old(self)@, outcome@),
    {
        let ghost s = self@;
        let yes = match &outcome {
            Outcome::Yes => true,
            _ => false,
        };
        let is_working = self.phase == Phase::AwaitTool || self.phase == Phase::AwaitBrewUpdate
            || self.phase == Phase::AwaitListed || self.phase == Phase::AwaitUpgrade || self.phase
            == Phase::AwaitSelf || self.phase == Phase::Finishing;
        match outcome {
            Outcome::Failed { detail, summary } => {
                if is_working {
                    let p = self.package_at();
                    let ghost pv = p@;
                    let kind = p.package_type.as_str();
                    let mut line = concat3("error while updating ", kind, " ");
                    push_str(&mut line, p.name.as_str());
                    push_str(&mut line, ": ");
                    push_str(&mut line, detail.as_str());
                    let mut shown = concat3("error: ", kind, " ");
                    push_str(&mut shown, p.name.as_str());
                    push_str(&mut shown, " (");
                    push_str(&mut shown, summary.as_str());
                    push_str(&mut shown, ")");
                    let mut effects: Vec<Effect> = Vec::new();
                    assert(self.index < self.packages.len());
                    effects.push(info(line));
                    effects.push(print(shown));
                    assert(effect_views(effects@) =~= error_effects(pv, detail@, summary@));
                    self.index = self.index + 1;
                    self.phase = Phase::Enter;
                    return make_step(effects, Request::Continue, false);
                }
            },
            _ => {},
        }
        match self.phase {
            Phase::Begin => {
                let mut effects: Vec<Effect> = Vec::new();
                if self.dry_run {
                    effects.push(
                        info(owned("dry-run mode enabled; no update commands will be executed")),
                    );
                }
                assert(effect_views(effects@) =~= if s.dry_run {
                    seq![EffectView::Info(dry_mode_msg())]
                } else {
                    seq![]
                });
                self.phase = Phase::Enter;
                make_step(effects, Request::Continue, false)
            },
            Phase::Enter => self.enter(),
            Phase::AwaitTool => self.after_tool(yes),
            Phase::AwaitBrewUpdate => self.after_brew_update(yes),
            Phase::AwaitListed => self.after_list(yes),
            Phase::AwaitUpgrade => {
                let inv = upgrade_invocation(self.package_at());
                self.after_update(inv.display, yes)
            },
            Phase::AwaitSelf => {
                let display = self_display_text(self.package_at());
                self.after_update(display, yes)
            },
            Phase::Finishing => {
                assert(self.index < self.packages.len());
                let effects: Vec<Effect> = Vec::new();
                assert(effect_views(effects@) =~= seq![]);
                self.index = self.index + 1;
                self.phase = Phase::Enter;
                make_step(effects, Request::Continue, false)
            },
            Phase::Done => {
                let effects: Vec<Effect> = Vec::new();
                assert(effect_views(effects@) =~= seq![]);
                make_step(effects, Request::Finished, false)
            },
        }
    }
}

// ---------------------------------------------------------------------------
// Laws
// ---------------------------------------------------------------------------

/// The command that updates an npm package or a Homebrew formula or cask.
pub open spec fn is_upgrade(inv: InvocationView) -> bool {
    &&& inv.args.len() > 0
    &&& (inv.program == "npm"@ && inv.args[0] == "i"@) || (inv.program == "brew"@ && inv.args[0]
        == "upgrade"@)
}


/// The program names and first arguments of the run's commands have these
/// lengths, so no two of them are equal.
proof fn lemma_command_word_lengths()
    ensures
        "ls"@.len() == 2 && "list"@.len() == 4 && "upgrade"@.len() == 7 && "update"@.len() == 6
            && "i"@.len() == 1,
        "sh"@.len() == 2 && "npm"@.len() == 3 && "brew"@.len() == 4,
{
    reveal_strlit("npm");
    reveal_strlit("brew");
    reveal_strlit("sh");
    reveal_strlit("i");
    reveal_strlit("ls");
    reveal_strlit("list");
    reveal_strlit("upgrade");
    reveal_strlit("update");
}

/// A dry run never executes a command, and stays a dry run.
pub proof fn lemma_dry_run_executes_nothing(s: RunView, o: OutcomeView)
    requires
        run_wf(s),
        s.dry_run,
    ensures
        !(step_spec(s, o).1.request is Execute),
        step_spec(s, o).0.dry_run,
{
}

/// Only installed tools are updated: an upgrade is requested only right
/// after the package's installed check succeeded.
pub proof fn lemma_upgrade_only_when_installed(s: RunView, o: OutcomeView)
    requires
        run_wf(s),
    ensures
        step_spec(s, o).1.request matches RequestView::Execute(inv) && is_upgrade(inv) ==> s.phase
            == Phase::AwaitListed && o is Yes,
{
    lemma_command_word_lengths();
}

/// `brew update` runs at most once per run: it is requested only while no
/// update has been done, and once done the run remembers it.
pub proof fn lemma_brew_update_once(s: RunView, o: OutcomeView)
    requires
        run_wf(s),
    ensures
        s.brew_updated ==> step_spec(s, o).0.brew_updated,
        step_spec(s, o).1.request == RequestView::Execute(brew_update_call()) ==> !s.brew_updated
            && step_spec(s, o).0.brew_updated,
{
    lemma_command_word_lengths();
}

/// The command that tells whether a package is installed, written out for
/// each type: `npm ls -g --depth=0 NAME`, `brew list --formula NAME`, or
/// `brew list --cask NAME`.
pub open spec fn is_installed_check(p: PackageView, inv: InvocationView) -> bool {
    match p.package_type {
        PackageType::Npm => inv.program == "npm"@ && inv.args == seq![
            "ls"@,
            "-g"@,
            "--depth=0"@,
            p.name,
        ],
        PackageType::Brew => inv.program == "brew"@ && inv.args == seq![
            "list"@,
            "--formula"@,
            p.name,
        ],
        PackageType::Cask => inv.program == "brew"@ && inv.args == seq!["list"@, "--cask"@, p.name],
        PackageType::SelfUpdate => false,
    }
}

/// The command that updates an installed package, written out for each
/// type: `npm i -g NAME@latest`, `brew upgrade NAME`, or
/// `brew upgrade --cask NAME`.
pub open spec fn is_update_command(p: PackageView, inv: InvocationView) -> bool {
    match p.package_type {
        PackageType::Npm => inv.program == "npm"@ && inv.args == seq![
            "i"@,
            "-g"@,
            p.name + "@latest"@,
        ],
        PackageType::Brew => inv.program == "brew"@ && inv.args == seq!["upgrade"@, p.name],
        PackageType::Cask => inv.program == "brew"@ && inv.args == seq![
            "upgrade"@,
            "--cask"@,
            p.name,
        ],
        PackageType::SelfUpdate => false,
    }
}

/// In a real run, every installed check that the run requests is the
/// package's own check (`--cask` for a cask, `--formula` for a formula,
/// `npm ls` for an npm package), whether or not `brew update` ran before it,
/// and every upgrade it requests is the package's own update command.
pub proof fn lemma_real_run_commands(s: RunView, o: OutcomeView)
    requires
        run_wf(s),
        !s.dry_run,
    ensures
        step_spec(s, o).0.phase == Phase::AwaitListed ==> (step_spec(s, o).1.request matches RequestView::Execute(inv)
            && is_installed_check(s.packages[s.index], inv)),
        step_spec(s, o).0.phase == Phase::AwaitUpgrade ==> (step_spec(s, o).1.request matches RequestView::Execute(inv)
            && is_update_command(s.packages[s.index], inv)),
{
    let p = s.packages[s.index];
    let (t, st) = step_spec(s, o);
    if t.phase == Phase::AwaitListed {
        assert(st.request == RequestView::Execute(list_call(p)));
        assert(list_call(p).args =~= list_args(p));
    }
    if t.phase == Phase::AwaitUpgrade {
        assert(st.request == RequestView::Execute(upgrade_call(p)));
    }
}

/// The installed check that a real run requests is the command that the
/// dry run of the same package logs: from a probe that found the tool, the
/// dry run logs `dry-run: ` and the very command line that the real run
/// runs as its installed check (directly, or right after `brew update`).
pub proof fn lemma_real_check_is_dry_logged(s: RunView)
    requires
        run_wf(s),
        s.phase == Phase::AwaitTool,
        !s.dry_run,
        s.packages[s.index].package_type != PackageType::SelfUpdate,
    ensures
        ({
            let dry = step_spec(RunView { dry_run: true, ..s }, OutcomeView::Yes).1.effects;
            let (t, st) = step_spec(s, OutcomeView::Yes);
            let check = if t.phase == Phase::AwaitBrewUpdate {
                step_spec(t, OutcomeView::Yes).1.request
            } else {
                st.request
            };
            check matches RequestView::Execute(inv) && exists|k: int|
                0 <= k < dry.len() && dry[k] == EffectView::Info("dry-run: "@ + inv.display)
        }),
{
    let p = s.packages[s.index];
    let dry = step_spec(RunView { dry_run: true, ..s }, OutcomeView::Yes).1.effects;
    let (t, st) = step_spec(s, OutcomeView::Yes);
    if p.package_type == PackageType::Npm {
        assert(dry[0] == EffectView::Info("dry-run: "@ + list_call(p).display));
    } else if s.brew_updated {
        assert(dry[0] == EffectView::Info("dry-run: "@ + list_call(p).display));
    } else {
        assert(t.phase == Phase::AwaitBrewUpdate);
        assert(step_spec(t, OutcomeView::Yes).1.request == RequestView::Execute(list_call(p)));
        assert(dry[2] == EffectView::Info("dry-run: "@ + list_call(p).display));
    }
}

/// The run moves forward: its position never goes back and advances by at
/// most one package per step, its packages and mode never change, and it
/// reports `Finished` only once every package has been dealt with.
pub proof fn lemma_step_progress(s: RunView, o: OutcomeView)
    requires
        run_wf(s),
    ensures
        run_wf(step_spec(s, o).0),
        s.index <= step_spec(s, o).0.index <= s.index + 1,
        step_spec(s, o).0.packages == s.packages,
        step_spec(s, o).0.dry_run == s.dry_run,
        step_spec(s, o).1.request is Finished ==> step_spec(s, o).0.index == s.packages.len()
            && step_spec(s, o).0.phase == Phase::Done,
{
}

} // verus!
