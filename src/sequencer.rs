//! The order in which a request's statements run, and what it answers.
//!
//! A request runs as a conversation between the sequencer, which decides, and
//! the caller, which does the engine's work: the sequencer hands out an
//! [`Action`], the caller performs it and reports back an [`Event`]. Every
//! statement but the last runs for its effects alone, each only once the one
//! before it has completed; the last one is planned and run, and what it
//! returns becomes the answer. The first failure ends the request.
use vstd::prelude::*;
use crate::plan_text::{redact_working_dir, redacted};
use crate::results::{all_rows, capped, first_columns, materialize, Batch, SqlResult};

verus! {

/// How rendering the physical plan came out.
pub enum PlanRendering {
    /// The rendered plan, and the working directory of the process.
    Rendered { text: String, working_dir: String },
    /// Rendering failed with this message.
    Failed(String),
}

/// What planning and running the last statement produced.
pub struct FinalOutput {
    /// Its logical plan, as indented text.
    pub logical_plan: String,
    /// The batches that running it returned, in order.
    pub batches: Vec<Batch>,
    /// Its physical plan, rendered.
    pub physical_plan: PlanRendering,
}

/// The physical plan text of a result: the rendering without the working
/// directory, or the message of the failure to render.
pub open spec fn physical_plan_text(p: PlanRendering) -> Seq<char> {
    match p {
        PlanRendering::Rendered { text, working_dir } => redacted(text@, working_dir@),
        PlanRendering::Failed(message) => message@,
    }
}

/// `r` is the result that `out` makes.
pub open spec fn assembled(out: FinalOutput, r: SqlResult) -> bool {
    &&& r.columns@ == first_columns(out.batches@)
    &&& capped(all_rows(out.batches@), r.columns@.len(), r.rows@)
    &&& r.logical_plan == out.logical_plan
    &&& r.physical_plan@ == physical_plan_text(out.physical_plan)
}

/// The result that the last statement's output makes.
pub fn assemble(out: FinalOutput) -> (r: SqlResult)
    ensures
        assembled(out, r),
{
    let FinalOutput { logical_plan, batches, physical_plan } = out;
    let (columns, rows) = materialize(batches);
    let physical_plan = match physical_plan {
        PlanRendering::Rendered { text, working_dir } => redact_working_dir(
            text.as_str(),
            working_dir.as_str(),
        ),
        PlanRendering::Failed(message) => message,
    };
    SqlResult { columns, rows, logical_plan, physical_plan }
}

/// Where a request stands.
#[derive(Clone, Copy)]
pub enum Phase {
    /// Nothing has happened yet.
    Start,
    /// The session is being built and its tables registered.
    OpeningSession,
    /// This statement, not the last, is running for its effects.
    RunningForEffect(usize),
    /// The last statement is running.
    RunningFinal,
    /// The request has been answered or has failed.
    Finished,
}

/// What the caller reports.
pub enum Event {
    /// The request arrives.
    Begin,
    /// The session is built and its tables are registered.
    SessionOpened,
    /// The statement that was running for its effects has completed.
    StatementDone,
    /// The last statement has been planned and run.
    FinalDone(FinalOutput),
    /// What was asked for failed, with this message.
    Failed(String),
}

/// What the sequencer asks the caller to do.
pub enum Action {
    /// Build the session and register the tables.
    OpenSession,
    /// Run this statement, draining whatever it returns.
    RunForEffect(usize),
    /// Plan and run this statement, the last one, and render its plans.
    RunFinal(usize),
    /// Answer the request with this result.
    Respond(SqlResult),
    /// Fail the request with this message.
    Fail(String),
    /// Nothing: the event does not fit where the request stands.
    Nothing,
}

/// The phase that event `e` moves a request of `n` statements to from `p`.
pub open spec fn next_phase(n: nat, p: Phase, e: Event) -> Phase {
    match p {
        Phase::Finished => Phase::Finished,
        _ => match e {
            Event::Failed(_) => Phase::Finished,
            Event::Begin => match p {
                Phase::Start => if n == 0 {
                    Phase::Finished
                } else {
                    Phase::OpeningSession
                },
                _ => p,
            },
            Event::SessionOpened => match p {
                Phase::OpeningSession => if n == 1 {
                    Phase::RunningFinal
                } else {
                    Phase::RunningForEffect(0)
                },
                _ => p,
            },
            Event::StatementDone => match p {
                Phase::RunningForEffect(i) => if i + 2 < n {
                    Phase::RunningForEffect((i + 1) as usize)
                } else {
                    Phase::RunningFinal
                },
                _ => p,
            },
            Event::FinalDone(_) => match p {
                Phase::RunningFinal => Phase::Finished,
                _ => p,
            },
        },
    }
}

/// Event `e` fits phase `p`: it is a failure before the end, or the report
/// that the phase waits for.
pub open spec fn fits(p: Phase, e: Event) -> bool {
    match p {
        Phase::Finished => false,
        Phase::Start => e is Begin || e is Failed,
        Phase::OpeningSession => e is SessionOpened || e is Failed,
        Phase::RunningForEffect(_) => e is StatementDone || e is Failed,
        Phase::RunningFinal => e is FinalDone || e is Failed,
    }
}

/// Drives the statements of one request.
pub struct Sequencer {
    n: usize,
    phase: Phase,
}

impl Sequencer {
    /// Number of statements in the request.
    pub closed spec fn statement_count(&self) -> nat {
        self.n as nat
    }

    /// Where the request stands.
    pub closed spec fn phase(&self) -> Phase {
        self.phase
    }

    /// The phase names a statement of the request, and the request has
    /// statements once its session opens.
    pub open spec fn wf(&self) -> bool {
        &&& self.phase() matches Phase::RunningForEffect(i) ==> i + 1 < self.statement_count()
        &&& self.phase() is OpeningSession ==> self.statement_count() > 0
        &&& self.phase() is RunningFinal ==> self.statement_count() > 0
    }

    /// A sequencer for a request of `statement_count` statements.
    pub fn new(statement_count: usize) -> (r: Sequencer)
        ensures
            r.wf(),
            r.statement_count() == statement_count,
            r.phase() is Start,
    {
        Sequencer { n: statement_count, phase: Phase::Start }
    }

    /// Where the request stands.
    pub fn current_phase(&self) -> (r: Phase)
        ensures
            r == self.phase(),
    {
        self.phase
    }

    /// Takes in what the caller reports, and says what to do next.
    pub fn step(&mut self, event: Event) -> (a: Action)
        requires
            old(self).wf(),
        ensures
            final(self).wf(),
            final(self).statement_count() == old(self).statement_count(),
            final(self).phase() == next_phase(old(self).statement_count(), old(self).phase(), event),
            !fits(old(self).phase(), event) ==> a is Nothing,
            fits(old(self).phase(), event) ==> match event {
                Event::Failed(message) => a == Action::Fail(message),
                Event::Begin => if old(self).statement_count() == 0 {
                    a matches Action::Respond(r) && r.is_zero()
                } else {
                    a is OpenSession
                },
                Event::SessionOpened => if old(self).statement_count() == 1 {
                    a == Action::RunFinal(0)
                } else {
                    a == Action::RunForEffect(0)
                },
                Event::StatementDone => match old(self).phase() {
                    Phase::RunningForEffect(i) => if i + 2 < old(self).statement_count() {
                        a == Action::RunForEffect((i + 1) as usize)
                    } else {
                        a == Action::RunFinal((old(self).statement_count() - 1) as usize)
                    },
                    _ => false,
                },
                Event::FinalDone(out) => a matches Action::Respond(r) && assembled(out, r),
            },
    {
        let n = self.n;
        match event {
            Event::Failed(message) => match self.phase {
                Phase::Finished => Action::Nothing,
                _ => {
                    self.phase = Phase::Finished;
                    Action::Fail(message)
                },
            },
            Event::Begin => match self.phase {
                Phase::Start => {
                    if n == 0 {
                        self.phase = Phase::Finished;
                        Action::Respond(SqlResult::empty())
                    } else {
                        self.phase = Phase::OpeningSession;
                        Action::OpenSession
                    }
                },
                _ => Action::Nothing,
            },
            Event::SessionOpened => match self.phase {
                Phase::OpeningSession => {
                    if n == 1 {
                        self.phase = Phase::RunningFinal;
                        Action::RunFinal(0)
                    } else {
                        self.phase = Phase::RunningForEffect(0);
                        Action::RunForEffect(0)
                    }
                },
                _ => Action::Nothing,
            },
            Event::StatementDone => match self.phase {
                Phase::RunningForEffect(i) => {
                    if i + 2 < n {
                        self.phase = Phase::RunningForEffect(i + 1);
                        Action::RunForEffect(i + 1)
                    } else {
                        self.phase = Phase::RunningFinal;
                        Action::RunFinal(n - 1)
                    }
                },
                _ => Action::Nothing,
            },
            Event::FinalDone(out) => match self.phase {
                Phase::RunningFinal => {
                    self.phase = Phase::Finished;
                    Action::Respond(assemble(out))
                },
                _ => Action::Nothing,
            },
        }
    }
}

/// The phase of a request of `n` statements once it has begun, its session
/// has opened, and `k` statements have completed for their effects.
pub open spec fn phase_after(n: nat, k: nat) -> Phase
    decreases k,
{
    if k == 0 {
        next_phase(n, next_phase(n, Phase::Start, Event::Begin), Event::SessionOpened)
    } else {
        next_phase(n, phase_after(n, (k - 1) as nat), Event::StatementDone)
    }
}

/// Statements run one at a time and in the order given: once the statements
/// before statement `k` have completed, statement `k` is the one running,
/// for its effects if another follows it, else as the last.
pub proof fn lemma_statements_run_in_order(n: nat, k: nat)
    requires
        0 < n <= usize::MAX,
        k < n,
    ensures
        phase_after(n, k) == if k + 1 < n {
            Phase::RunningForEffect(k as usize)
        } else {
            Phase::RunningFinal
        },
    decreases k,
{
    if k > 0 {
        lemma_statements_run_in_order(n, (k - 1) as nat);
    }
}

/// Once a request has failed or been answered, nothing that is reported
/// moves it again.
pub proof fn lemma_finished_is_final(n: nat, e: Event)
    ensures
        next_phase(n, Phase::Finished, e) is Finished,
        !fits(Phase::Finished, e),
{
}

} // verus!
