//! How an agent run is driven: its setup stages, the program coroutine, and
//! the answer to each request.
//!
//! The driver is leaf dispatch only: it resumes the coroutine, validates each
//! yield into a request, awaits exactly one future, and resumes with the
//! answer. Before every resume it republishes the length bound of the event
//! log, so appends land in the program's view only at host-call resumes.

use super::error::{fault_model, from_lua, AgentError, ErrorModel, LuaFault};
use super::round::ChatResult;
use crate::observe::Observation;
use crate::text::concat;
use vstd::prelude::*;

verus! {

/// A stage of an agent run.
#[derive(Debug, Clone, Copy, PartialEq, Eq, Structural)]
pub enum Stage {
    /// The source is compiled.
    Compile,
    /// The agent VM is built.
    Build,
    /// The resource ceilings are applied.
    Limit,
    /// The host values are injected.
    InjectHost,
    /// The host APIs are installed.
    InstallApis,
    /// The coroutine shims are installed.
    InstallShims,
    /// The `models.chat` shim is installed.
    InstallChat,
    /// The per-alias dispatch counts are installed.
    InstallCounts,
    /// The `runtime.events()` view is installed.
    InstallEvents,
    /// The `execute` global is removed.
    RemoveExecute,
    /// The `fanout` global is removed.
    RemoveFanout,
    /// The program runs.
    Program,
    /// The run is over.
    Over,
}

/// The stage behind a stage that succeeded.
pub open spec fn after(stage: Stage) -> Stage {
    match stage {
        Stage::Compile => Stage::Build,
        Stage::Build => Stage::Limit,
        Stage::Limit => Stage::InjectHost,
        Stage::InjectHost => Stage::InstallApis,
        Stage::InstallApis => Stage::InstallShims,
        Stage::InstallShims => Stage::InstallChat,
        Stage::InstallChat => Stage::InstallCounts,
        Stage::InstallCounts => Stage::InstallEvents,
        Stage::InstallEvents => Stage::RemoveExecute,
        Stage::RemoveExecute => Stage::RemoveFanout,
        Stage::RemoveFanout => Stage::Program,
        Stage::Program => Stage::Over,
        Stage::Over => Stage::Over,
    }
}

/// A failure of the stage is torn down: one that comes before the ceilings are
/// applied, or from applying them, propagates bare.
pub open spec fn torn_down(stage: Stage) -> bool {
    !(stage == Stage::Compile || stage == Stage::Build || stage == Stage::Limit)
}

/// What the run does when a stage has ended.
#[derive(Debug, PartialEq, Eq)]
pub enum Effect {
    /// Report to the observer.
    Observe {
        /// The run's execution id.
        execution: String,
        /// The agent's name.
        section: String,
        /// What is reported.
        event: Observation,
    },
    /// Tear the VM down.
    Teardown {
        /// The agent's name, which the teardown reports under.
        section: String,
    },
    /// Return this outcome.
    Return(Result<(), AgentError>),
}

/// [`Effect`] over plain values; an outcome is the failure, where it is one.
pub enum EffectModel {
    Observe { execution: Seq<char>, section: Seq<char>, event: Observation },
    Teardown { section: Seq<char> },
    Return(Option<ErrorModel>),
}

/// The failure of an outcome, where it is one.
pub open spec fn failure_of(outcome: Result<(), AgentError>) -> Option<ErrorModel> {
    match outcome {
        Ok(()) => None,
        Err(error) => Some(error@),
    }
}

impl View for Effect {
    type V = EffectModel;

    open spec fn view(&self) -> EffectModel {
        match *self {
            Effect::Observe { execution, section, event } => EffectModel::Observe {
                execution: execution@,
                section: section@,
                event,
            },
            Effect::Teardown { section } => EffectModel::Teardown { section: section@ },
            Effect::Return(outcome) => EffectModel::Return(failure_of(outcome)),
        }
    }
}

/// The effects over plain values.
pub open spec fn effect_models(list: Seq<Effect>) -> Seq<EffectModel> {
    Seq::new(list.len(), |i: int| list[i]@)
}

/// Whom a run reports as.
pub struct Reporter {
    /// The execution id.
    pub execution: Seq<char>,
    /// The agent's name.
    pub section: Seq<char>,
}

/// A report of `event`.
pub open spec fn observed(who: Reporter, event: Observation) -> EffectModel {
    EffectModel::Observe { execution: who.execution, section: who.section, event }
}

/// The teardown.
pub open spec fn teardown(who: Reporter) -> EffectModel {
    EffectModel::Teardown { section: who.section }
}

/// What the run does when a stage has ended, in order; `failure` is the
/// stage's, none where it succeeded. Where the run ends, it returns the
/// stage's own outcome.
pub open spec fn effects(who: Reporter, stage: Stage, failure: Option<ErrorModel>) -> Seq<
    EffectModel,
> {
    match stage {
        Stage::Over => Seq::empty(),
        Stage::Program => seq![
            observed(
                who,
                if failure is None {
                    Observation::LuaChunkSucceeded
                } else {
                    Observation::LuaChunkFailed
                },
            ),
            teardown(who),
            EffectModel::Return(failure),
        ],
        Stage::RemoveFanout => if failure is None {
            seq![observed(who, Observation::LuaChunkStarted)]
        } else {
            seq![teardown(who), EffectModel::Return(failure)]
        },
        _ => if failure is None {
            Seq::empty()
        } else if torn_down(stage) {
            seq![teardown(who), EffectModel::Return(failure)]
        } else {
            seq![EffectModel::Return(failure)]
        },
    }
}

/// One agent run: compile, build the agent VM, drive the program to its end,
/// tear down.
#[derive(Debug)]
pub struct Drive {
    execution: String,
    section: String,
    stage: Stage,
}

impl Drive {
    /// The stage the run is in.
    pub closed spec fn at(&self) -> Stage {
        self.stage
    }

    /// Whom the run reports as.
    pub closed spec fn who(&self) -> Reporter {
        Reporter { execution: self.execution@, section: self.section@ }
    }

    /// A run that has not begun, of the agent `name`.
    pub fn new(execution: &str, name: &str) -> (run: Drive)
        ensures
            run.at() == Stage::Compile,
            run.who() == (Reporter { execution: execution@, section: name@ }),
    {
        Drive {
            execution: execution.to_owned(),
            section: name.to_owned(),
            stage: Stage::Compile,
        }
    }

    /// The stage to perform.
    pub fn stage(&self) -> (stage: Stage)
        ensures
            stage == self.at(),
    {
        self.stage
    }

    fn observe(&self, event: Observation) -> (effect: Effect)
        ensures
            effect@ == observed(self.who(), event),
    {
        Effect::Observe {
            execution: self.execution.clone(),
            section: self.section.clone(),
            event,
        }
    }

    fn tear_down(&self) -> (effect: Effect)
        ensures
            effect@ == teardown(self.who()),
    {
        Effect::Teardown { section: self.section.clone() }
    }

    /// Takes the outcome of the current stage, and says what to do.
    pub fn ended(&mut self, outcome: Result<(), AgentError>) -> (list: Vec<Effect>)
        ensures
            effect_models(list@) == effects(
                old(self).who(),
                old(self).at(),
                failure_of(outcome),
            ),
            final(self).who() == old(self).who(),
            final(self).at() == if outcome is Ok {
                after(old(self).at())
            } else {
                Stage::Over
            },
    {
        let ghost who = self.who();
        let ghost failure = failure_of(outcome);
        let stage = self.stage;
        let succeeded = outcome.is_ok();
        let mut list: Vec<Effect> = Vec::new();
        if stage == Stage::Over {
            assert(effect_models(list@) =~= effects(who, stage, failure));
            return list;
        }
        if stage == Stage::Program {
            if succeeded {
                list.push(self.observe(Observation::LuaChunkSucceeded));
            } else {
                list.push(self.observe(Observation::LuaChunkFailed));
            }
            list.push(self.tear_down());
            list.push(Effect::Return(outcome));
            self.stage = Stage::Over;
            assert(effect_models(list@) =~= effects(who, stage, failure));
            return list;
        }
        if !succeeded {
            if !(stage == Stage::Compile || stage == Stage::Build || stage == Stage::Limit) {
                list.push(self.tear_down());
            }
            list.push(Effect::Return(outcome));
            self.stage = Stage::Over;
            assert(effect_models(list@) =~= effects(who, stage, failure));
            return list;
        }
        if stage == Stage::RemoveFanout {
            list.push(self.observe(Observation::LuaChunkStarted));
        }
        self.stage = match stage {
            Stage::Compile => Stage::Build,
            Stage::Build => Stage::Limit,
            Stage::Limit => Stage::InjectHost,
            Stage::InjectHost => Stage::InstallApis,
            Stage::InstallApis => Stage::InstallShims,
            Stage::InstallShims => Stage::InstallChat,
            Stage::InstallChat => Stage::InstallCounts,
            Stage::InstallCounts => Stage::InstallEvents,
            Stage::InstallEvents => Stage::RemoveExecute,
            Stage::RemoveExecute => Stage::RemoveFanout,
            Stage::RemoveFanout => Stage::Program,
            Stage::Program => Stage::Over,
            Stage::Over => Stage::Over,
        };
        assert(effect_models(list@) =~= effects(who, stage, failure));
        list
    }
}

/// The failure of removing a shared shim from the agent VM.
pub fn shim_failure(global: &str, source: String) -> (error: AgentError)
    ensures
        error@ == (ErrorModel::Program {
            message: "removing the `"@ + global@ + "` shim from the agent VM failed"@,
            source: Some(source@),
        }),
{
    let mut message = concat("removing the `", global);
    message.push_str("` shim from the agent VM failed");
    AgentError::Program { message, source: Some(source) }
}

/// The gateway client slot: the injected client, else one that is resolved
/// from the environment on first use and kept.
#[derive(Debug)]
pub struct ClientSlot {
    filled: bool,
}

impl ClientSlot {
    /// Whether the slot holds a client.
    pub closed spec fn holds(&self) -> bool {
        self.filled
    }

    /// A slot with or without an injected client.
    pub fn new(injected: bool) -> (slot: ClientSlot)
        ensures
            slot.holds() == injected,
    {
        ClientSlot { filled: injected }
    }

    /// Whether a client has to be resolved before the next model call.
    pub fn must_resolve(&self) -> (yes: bool)
        ensures
            yes == !self.holds(),
    {
        !self.filled
    }

    /// Takes the outcome of resolving a client: a client is kept for the rest
    /// of the run, a failure fails the call and leaves the slot empty.
    pub fn resolved(&mut self, outcome: Result<(), String>) -> (result: Result<(), AgentError>)
        requires
            !old(self).holds(),
        ensures
            final(self).holds() == (outcome is Ok),
            match outcome {
                Ok(()) => result is Ok,
                Err(why) => result matches Err(error) && error@ == (ErrorModel::Model {
                    message: why@,
                    source: why@,
                }),
            },
    {
        match outcome {
            Ok(()) => {
                self.filled = true;
                Ok(())
            },
            Err(why) => Err(AgentError::Model { message: why.clone(), source: why }),
        }
    }
}

/// What a request asks for.
#[derive(Debug, Clone, Copy, PartialEq, Eq, Structural)]
pub enum RequestKind {
    /// One `models.infer` round.
    Infer,
    /// One `tool_call` dispatch.
    ToolCall,
    /// One `models.chat` round.
    Chat,
    /// A section's `execute`.
    Execute,
    /// A section's `fanout`.
    Fanout,
    /// A section's MCP call.
    Mcp,
}

/// How one step of the program coroutine ended.
#[derive(Debug)]
pub enum Step {
    /// The program returned.
    Returned,
    /// The program recorded a transfer.
    Jumped,
    /// The program yielded a validated request.
    Request(RequestKind),
    /// The program yielded a call whose arguments failed validation; the
    /// failure is the call's answer.
    Answered,
    /// The program yielded what is no request.
    Malformed(LuaFault),
    /// Resuming the program failed.
    Failed(LuaFault),
}

/// What a dispatch came back with, which is what the program resumes with.
#[derive(Debug)]
pub enum Answer {
    /// An infer round.
    Infer(Result<String, AgentError>),
    /// A tool dispatch, with the tool's output.
    ToolCall(Result<String, AgentError>),
    /// A chat round.
    Chat(Result<ChatResult, AgentError>),
}

/// The request that an answer answers.
pub open spec fn answers(answer: Answer) -> RequestKind {
    match answer {
        Answer::Infer(_) => RequestKind::Infer,
        Answer::ToolCall(_) => RequestKind::ToolCall,
        Answer::Chat(_) => RequestKind::Chat,
    }
}

/// Whether a dispatch was interrupted.
pub open spec fn interrupted(answer: Answer) -> bool {
    match answer {
        Answer::Infer(outcome) => outcome matches Err(error) && error@ is Interrupted,
        Answer::ToolCall(outcome) => outcome matches Err(error) && error@ is Interrupted,
        Answer::Chat(outcome) => outcome matches Err(error) && error@ is Interrupted,
    }
}

/// What the driver does next.
#[derive(Debug)]
pub enum Action {
    /// Dispatch the request, and await nothing else.
    Dispatch(RequestKind),
    /// Republish the event log's length bound, then resume the program with
    /// the answer that its yield already carries.
    RefreshAndResume,
    /// Republish the event log's length bound, then resume the program with
    /// this answer.
    RefreshAndAnswer(Answer),
    /// The program is over, with this outcome.
    Finish(Result<(), AgentError>),
}

/// [`Action`] over plain values.
pub enum ActionModel {
    Dispatch(RequestKind),
    RefreshAndResume,
    RefreshAndAnswer(Answer),
    Finish(Option<ErrorModel>),
}

impl View for Action {
    type V = ActionModel;

    open spec fn view(&self) -> ActionModel {
        match *self {
            Action::Dispatch(kind) => ActionModel::Dispatch(kind),
            Action::RefreshAndResume => ActionModel::RefreshAndResume,
            Action::RefreshAndAnswer(answer) => ActionModel::RefreshAndAnswer(answer),
            Action::Finish(Ok(())) => ActionModel::Finish(None),
            Action::Finish(Err(error)) => ActionModel::Finish(Some(error@)),
        }
    }
}

/// What a step of the coroutine asks for.
pub open spec fn reaction(step: Step) -> ActionModel {
    match step {
        Step::Returned => ActionModel::Finish(None),
        Step::Jumped => ActionModel::Finish(
            Some(
                ErrorModel::Internal(
                    "an agent VM cannot record a jump: the jump global is never installed"@,
                ),
            ),
        ),
        Step::Request(kind) => match refused(kind) {
            None => ActionModel::Dispatch(kind),
            Some(why) => ActionModel::Finish(Some(ErrorModel::Internal(why))),
        },
        Step::Answered => ActionModel::RefreshAndResume,
        Step::Malformed(fault) => ActionModel::Finish(Some(fault_model(fault))),
        Step::Failed(fault) => ActionModel::Finish(Some(fault_model(fault))),
    }
}

/// Why a request cannot come from an agent VM, where it cannot.
pub open spec fn refused(kind: RequestKind) -> Option<Seq<char>> {
    match kind {
        RequestKind::Execute => Some(
            "an agent VM cannot yield an execute request: the shim is never installed"@,
        ),
        RequestKind::Fanout => Some(
            "an agent VM cannot yield a fanout request: the shim is never installed"@,
        ),
        RequestKind::Mcp => Some("an agent VM cannot yield an mcp request: no shim produces one"@),
        _ => None,
    }
}

/// What the driver does with what a dispatch came back with. A dispatch
/// failure rides back as the call's answer, so the program can catch it;
/// cancellation alone fails the run instead of resuming.
pub open spec fn settled(answer: Answer) -> ActionModel {
    if interrupted(answer) {
        ActionModel::Finish(Some(ErrorModel::Interrupted))
    } else {
        ActionModel::RefreshAndAnswer(answer)
    }
}

fn refuse(why: &'static str) -> (action: Action)
    ensures
        action@ == ActionModel::Finish(Some(ErrorModel::Internal(why@))),
{
    Action::Finish(Err(AgentError::Internal(why)))
}

/// Where the driver stands.
#[derive(Debug, Clone, Copy, PartialEq, Eq, Structural)]
pub enum Position {
    /// The program runs.
    Running,
    /// The one request in flight is being dispatched.
    Dispatching(RequestKind),
    /// The program is over.
    Over,
}

/// Where an action leaves the driver.
pub open spec fn position_after(action: ActionModel) -> Position {
    match action {
        ActionModel::Dispatch(kind) => Position::Dispatching(kind),
        ActionModel::RefreshAndResume => Position::Running,
        ActionModel::RefreshAndAnswer(_) => Position::Running,
        ActionModel::Finish(_) => Position::Over,
    }
}

/// Drives the program coroutine to its end: resume, validate the yield,
/// dispatch the one in-flight request, resume with the answer.
#[derive(Debug)]
pub struct ProgramLoop {
    position: Position,
}

impl ProgramLoop {
    /// Where the driver stands.
    pub closed spec fn at(&self) -> Position {
        self.position
    }

    /// A driver whose program was just started.
    pub fn new() -> (driver: ProgramLoop)
        ensures
            driver.at() == Position::Running,
    {
        ProgramLoop { position: Position::Running }
    }

    /// Takes one step of the coroutine: a request is dispatched, an
    /// argument-validation failure resumes as the call's answer, and
    /// everything else ends the program.
    pub fn stepped(&mut self, step: Step) -> (action: Action)
        requires
            old(self).at() == Position::Running,
        ensures
            action@ == reaction(step),
            final(self).at() == position_after(action@),
    {
        let action = match step {
            Step::Returned => Action::Finish(Ok(())),
            Step::Jumped => refuse(
                "an agent VM cannot record a jump: the jump global is never installed",
            ),
            Step::Request(kind) => match kind {
                RequestKind::Execute => refuse(
                    "an agent VM cannot yield an execute request: the shim is never installed",
                ),
                RequestKind::Fanout => refuse(
                    "an agent VM cannot yield a fanout request: the shim is never installed",
                ),
                RequestKind::Mcp => refuse(
                    "an agent VM cannot yield an mcp request: no shim produces one",
                ),
                RequestKind::Infer | RequestKind::ToolCall | RequestKind::Chat => {
                    self.position = Position::Dispatching(kind);
                    return Action::Dispatch(kind);
                },
            },
            Step::Answered => {
                return Action::RefreshAndResume;
            },
            Step::Malformed(fault) => Action::Finish(Err(from_lua(fault))),
            Step::Failed(fault) => Action::Finish(Err(from_lua(fault))),
        };
        self.position = Position::Over;
        action
    }

    /// Takes what the dispatch of the request in flight came back with.
    pub fn dispatched(&mut self, answer: Answer) -> (action: Action)
        requires
            old(self).at() == Position::Dispatching(answers(answer)),
        ensures
            action@ == settled(answer),
            final(self).at() == position_after(action@),
    {
        let stopped = match &answer {
            Answer::Infer(Err(AgentError::Interrupted)) => true,
            Answer::ToolCall(Err(AgentError::Interrupted)) => true,
            Answer::Chat(Err(AgentError::Interrupted)) => true,
            _ => false,
        };
        if stopped {
            self.position = Position::Over;
            Action::Finish(Err(AgentError::Interrupted))
        } else {
            self.position = Position::Running;
            Action::RefreshAndAnswer(answer)
        }
    }
}

/// What a run does from `stage` on, given the failure of each of its stages,
/// none where the stage succeeds.
pub open spec fn run_effects(who: Reporter, stage: Stage, failures: Seq<Option<ErrorModel>>) -> Seq<
    EffectModel,
>
    decreases failures.len(),
{
    if failures.len() == 0 || stage == Stage::Over {
        Seq::empty()
    } else {
        effects(who, stage, failures[0]) + run_effects(
            who,
            if failures[0] is None {
                after(stage)
            } else {
                Stage::Over
            },
            failures.skip(1),
        )
    }
}

/// The stage of a run behind `n` stages that succeeded.
pub open spec fn stage_after(n: nat) -> Stage
    decreases n,
{
    if n == 0 {
        Stage::Compile
    } else {
        after(stage_after((n - 1) as nat))
    }
}

/// How many stages set a run up before its program runs.
pub const SETUP_STAGES: usize = 11;

/// The setup stages in front of the last are silent while they succeed.
proof fn lemma_setup_is_silent(who: Reporter, failures: Seq<Option<ErrorModel>>, n: nat)
    requires
        n < SETUP_STAGES,
        n <= failures.len(),
        forall|i: int| 0 <= i < n ==> (#[trigger] failures[i]) is None,
    ensures
        run_effects(who, Stage::Compile, failures) == run_effects(
            who,
            stage_after(n),
            failures.skip(n as int),
        ),
        stage_after(n) != Stage::Program && stage_after(n) != Stage::Over,
        n < SETUP_STAGES - 1 <==> stage_after(n) != Stage::RemoveFanout,
        torn_down(stage_after(n)) <==> n >= 3,
    decreases n,
{
    reveal_with_fuel(stage_after, 12);
    if n == 0 {
        assert(failures.skip(0) == failures);
    } else {
        let m = (n - 1) as nat;
        lemma_setup_is_silent(who, failures, m);
        let here = failures.skip(m as int);
        assert(here[0] == failures[m as int]);
        assert(here.skip(1) == failures.skip(n as int));
        let rest = run_effects(who, stage_after(n), failures.skip(n as int));
        assert(run_effects(who, stage_after(m), here) == effects(who, stage_after(m), None) + rest);
        assert(effects(who, stage_after(m), None) + rest == rest);
    }
}

/// A run whose setup succeeds reports the chunk's start, then that it
/// succeeded exactly where the program did, each under the execution id and
/// the agent's name; then it is torn down, once, on failure too; and then it
/// returns the program's own outcome.
pub proof fn law_a_chunk_is_bracketed(who: Reporter, failures: Seq<Option<ErrorModel>>)
    requires
        failures.len() > SETUP_STAGES,
        forall|i: int| 0 <= i < SETUP_STAGES ==> (#[trigger] failures[i]) is None,
    ensures
        run_effects(who, Stage::Compile, failures) == seq![
            observed(who, Observation::LuaChunkStarted),
            observed(
                who,
                if failures[SETUP_STAGES as int] is None {
                    Observation::LuaChunkSucceeded
                } else {
                    Observation::LuaChunkFailed
                },
            ),
            teardown(who),
            EffectModel::Return(failures[SETUP_STAGES as int]),
        ],
{
    let n = (SETUP_STAGES - 1) as nat;
    lemma_setup_is_silent(who, failures, n);
    let here = failures.skip(n as int);
    let program = here.skip(1);
    assert(here[0] == failures[n as int]);
    assert(program[0] == failures[SETUP_STAGES as int]);
    assert(run_effects(who, Stage::Over, program.skip(1)) == Seq::<EffectModel>::empty());
    assert(run_effects(who, Stage::Program, program) == effects(who, Stage::Program, program[0]));
    assert(run_effects(who, Stage::RemoveFanout, here) == effects(who, Stage::RemoveFanout, None)
        + run_effects(who, Stage::Program, program));
}

/// A run whose setup fails reports no chunk and returns that failure at once:
/// a failure to compile, to build the VM, or to apply its ceilings bare, and a
/// later one behind exactly one teardown.
pub proof fn law_a_failed_setup_reports_no_chunk(
    who: Reporter,
    failures: Seq<Option<ErrorModel>>,
    n: nat,
)
    requires
        n < SETUP_STAGES,
        n < failures.len(),
        forall|i: int| 0 <= i < n ==> (#[trigger] failures[i]) is None,
        failures[n as int] is Some,
    ensures
        run_effects(who, Stage::Compile, failures) == if n < 3 {
            seq![EffectModel::Return(failures[n as int])]
        } else {
            seq![teardown(who), EffectModel::Return(failures[n as int])]
        },
{
    lemma_setup_is_silent(who, failures, n);
    let here = failures.skip(n as int);
    assert(here[0] == failures[n as int]);
    assert(run_effects(who, Stage::Over, here.skip(1)) == Seq::<EffectModel>::empty());
    assert(run_effects(who, stage_after(n), here) == effects(who, stage_after(n), here[0]));
}

/// A dispatch failure rides back as the call's answer; cancellation alone ends
/// the run.
pub proof fn law_failures_ride_back(answer: Answer)
    ensures
        settled(answer) is Finish <==> interrupted(answer),
        settled(answer) is Finish ==> settled(answer) == ActionModel::Finish(
            Some(ErrorModel::Interrupted),
        ),
        !interrupted(answer) ==> settled(answer) == ActionModel::RefreshAndAnswer(answer),
{
}

/// The program is resumed in no other way than behind a refresh of the event
/// log's length bound: whatever a step or a dispatch leads to, the program
/// runs on only through an action that refreshes first.
pub proof fn law_every_resume_refreshes(step: Step, answer: Answer)
    ensures
        position_after(reaction(step)) == Position::Running ==> reaction(step) is RefreshAndResume,
        position_after(settled(answer)) == Position::Running ==> settled(
            answer,
        ) is RefreshAndAnswer,
{
}

/// The section-only requests are absent from an agent: none of them is ever
/// dispatched, and the three leaf calls always are.
pub proof fn law_only_leaf_calls_are_dispatched(kind: RequestKind)
    ensures
        reaction(Step::Request(kind)) == ActionModel::Dispatch(kind) <==> kind == RequestKind::Infer
            || kind == RequestKind::ToolCall || kind == RequestKind::Chat,
{
}

/// The program ends with success only where its coroutine returned, and a
/// fault of the coroutine ends it with exactly the failure that the fault
/// stands for; a failed validation is the call's answer, and is resumed with;
/// what an agent cannot ask for is an internal failure. No step but a request
/// is dispatched, and none is answered before it was.
pub proof fn law_only_a_return_succeeds(step: Step)
    ensures
        reaction(step) == ActionModel::Finish(None) <==> step is Returned,
        reaction(step) is RefreshAndResume <==> step is Answered,
        reaction(step) is Dispatch ==> step is Request,
        !(reaction(step) is RefreshAndAnswer),
        step matches Step::Failed(fault) ==> reaction(step) == ActionModel::Finish(
            Some(fault_model(fault)),
        ),
        step matches Step::Malformed(fault) ==> reaction(step) == ActionModel::Finish(
            Some(fault_model(fault)),
        ),
        step matches Step::Failed(LuaFault::Interrupted) ==> reaction(step)
            == ActionModel::Finish(Some(ErrorModel::Interrupted)),
        step matches Step::Failed(LuaFault::Other(rendered)) ==> reaction(step)
            == ActionModel::Finish(
            Some(ErrorModel::Program { message: rendered@, source: None }),
        ),
        step matches Step::Failed(LuaFault::LuaRuntime { message, source }) ==> reaction(step)
            == ActionModel::Finish(
            Some(ErrorModel::Program { message: message@, source: Some(source@) }),
        ),
        step is Jumped ==> (reaction(step) matches ActionModel::Finish(Some(failure))
            && failure is Internal),
        step matches Step::Request(kind) ==> {
            ||| reaction(step) == ActionModel::Dispatch(kind)
            ||| (reaction(step) matches ActionModel::Finish(Some(failure)) && failure is Internal)
        },
{
}

/// What a failing program says when an agent asks for what only a section can.
pub proof fn law_refusals_name_the_request(kind: RequestKind)
    ensures
        kind == RequestKind::Execute ==> refused(kind) == Some(
            "an agent VM cannot yield an execute request: the shim is never installed"@,
        ),
        kind == RequestKind::Fanout ==> refused(kind) == Some(
            "an agent VM cannot yield a fanout request: the shim is never installed"@,
        ),
        kind == RequestKind::Mcp ==> refused(kind) == Some(
            "an agent VM cannot yield an mcp request: no shim produces one"@,
        ),
        reaction(Step::Jumped) == ActionModel::Finish(
            Some(
                ErrorModel::Internal(
                    "an agent VM cannot record a jump: the jump global is never installed"@,
                ),
            ),
        ),
{
}

/// The driver stands where its action says: over exactly behind the program's
/// end, and with a request in flight exactly while that one is dispatched.
pub proof fn law_one_request_in_flight(action: ActionModel)
    ensures
        position_after(action) == Position::Over <==> action is Finish,
        forall|kind: RequestKind|
            position_after(action) == Position::Dispatching(kind) <==> action
                == ActionModel::Dispatch(kind),
{
}

/// Cancellation is what interrupts a dispatch, whichever call it was, and
/// nothing else does: every other outcome, success or failure, reaches the
/// program as it came back.
pub proof fn law_only_cancellation_interrupts(answer: Answer)
    ensures
        ({
            let cancelled = {
                ||| answer matches Answer::Infer(Err(AgentError::Interrupted))
                ||| answer matches Answer::ToolCall(Err(AgentError::Interrupted))
                ||| answer matches Answer::Chat(Err(AgentError::Interrupted))
            };
            &&& cancelled ==> settled(answer) == ActionModel::Finish(Some(ErrorModel::Interrupted))
            &&& !cancelled ==> settled(answer) == ActionModel::RefreshAndAnswer(answer)
        }),
        answers(answer) == RequestKind::Infer <==> answer is Infer,
        answers(answer) == RequestKind::ToolCall <==> answer is ToolCall,
        answers(answer) == RequestKind::Chat <==> answer is Chat,
{
}

/// The stages in their order: compile and build, ceilings before anything the
/// program could use, host values and APIs before the shims over them, the
/// removals last, and then the program; behind it nothing follows.
pub proof fn law_stages_in_order(n: nat)
    ensures
        n <= SETUP_STAGES ==> stage_after(n) == seq![
            Stage::Compile,
            Stage::Build,
            Stage::Limit,
            Stage::InjectHost,
            Stage::InstallApis,
            Stage::InstallShims,
            Stage::InstallChat,
            Stage::InstallCounts,
            Stage::InstallEvents,
            Stage::RemoveExecute,
            Stage::RemoveFanout,
            Stage::Program,
        ][n as int],
        n > SETUP_STAGES ==> stage_after(n) == Stage::Over,
        after(Stage::Over) == Stage::Over,
    decreases n,
{
    reveal_with_fuel(stage_after, 13);
    if n > SETUP_STAGES + 1 {
        law_stages_in_order((n - 1) as nat);
    }
}

/// A run reports under its own execution id and name alone, whatever stage
/// ended and however; a stage that succeeds returns nothing unless it was the
/// program, and a stage that fails always returns that failure, last.
pub proof fn law_a_stage_reports_as_its_run(
    who: Reporter,
    stage: Stage,
    failure: Option<ErrorModel>,
)
    ensures
        forall|i: int|
            0 <= i < effects(who, stage, failure).len() ==> match #[trigger] effects(
                who,
                stage,
                failure,
            )[i] {
                EffectModel::Observe { execution, section, .. } => execution == who.execution
                    && section == who.section,
                EffectModel::Teardown { section } => section == who.section,
                EffectModel::Return(outcome) => outcome == failure && i == effects(
                    who,
                    stage,
                    failure,
                ).len() - 1,
            },
        stage != Stage::Over && (failure is Some || stage == Stage::Program) ==> effects(
            who,
            stage,
            failure,
        ).len() > 0 && effects(who, stage, failure).last() == EffectModel::Return(failure),
        failure is None && stage != Stage::Program ==> forall|i: int|
            0 <= i < effects(who, stage, failure).len() ==> !((#[trigger] effects(
                who,
                stage,
                failure,
            )[i]) is Return),
{
}

/// A failure is torn down from the fourth stage on, once the ceilings are
/// applied; one of the first three propagates bare.
pub proof fn law_teardown_starts_behind_the_ceilings(n: nat)
    requires
        n < SETUP_STAGES,
    ensures
        torn_down(stage_after(n)) <==> n >= 3,
        torn_down(Stage::Program),
{
    law_stages_in_order(n);
}

} // verus!
