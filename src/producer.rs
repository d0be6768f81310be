use vstd::prelude::*;
use crate::error::LabelError;
use crate::units::{Measurement, PhysicalDimensions, dimensions_of, physical_dimensions};

verus! {

/// The step a producer job has reached; each names the operation it waits on.
#[derive(Clone, Copy, Debug, PartialEq, Eq, Structural)]
pub enum Stage {
    AwaitingEngine,
    CreatingScope,
    Loading,
    Measuring,
    Exporting,
    Persisting,
    Finished,
    Failed,
}

/// What the program reports back about the operation the job asked for.
#[derive(Clone, Copy, Debug, PartialEq, Eq, Structural)]
pub enum JobEvent {
    /// The pending operation succeeded.
    Done,
    /// The pending operation failed.
    Failed,
    /// The label element was measured.
    Measured(Measurement),
    /// No element matches the label selector.
    LabelMissing,
}

/// What the job asks the program to do next.
#[derive(Clone, Copy, Debug, PartialEq, Eq, Structural)]
pub enum JobAction {
    /// Take exclusive ownership of the layout engine, waiting as long as it takes.
    AcquireEngine,
    /// Create the job's ephemeral storage and write the markup into it.
    CreateScope,
    /// Load the stored markup into the engine and wait for it to settle.
    Load,
    /// Measure the content box of the label element.
    Measure,
    /// Export page one, zero margins, at exactly these dimensions.
    Export(PhysicalDimensions),
    /// Write the exported page into the job's ephemeral storage.
    Persist,
    /// Release the engine; the artifact of these dimensions takes the storage.
    Finish(PhysicalDimensions),
    /// Release the engine, and the storage where the flag is set; report the error.
    Abort(LabelError, bool),
}

/// One run from markup to an exactly sized page artifact.
#[derive(Clone, Copy, Debug, PartialEq, Eq, Structural)]
pub struct ProducerJob {
    pub stage: Stage,
    pub holds_engine: bool,
    pub holds_scope: bool,
    pub measured: Option<Measurement>,
}

/// Whether a measured label makes a page of some size.
pub open spec fn label_fits(m: Measurement) -> bool {
    dimensions_of(m).width_um > 0 && dimensions_of(m).height_um > 0
}

pub open spec fn is_engine_operation(a: JobAction) -> bool {
    match a {
        JobAction::Load | JobAction::Measure | JobAction::Export(_) | JobAction::Persist => true,
        _ => false,
    }
}

pub open spec fn is_terminal(s: Stage) -> bool {
    s == Stage::Finished || s == Stage::Failed
}

pub open spec fn job(stage: Stage, engine: bool, scope: bool, measured: Option<Measurement>) -> ProducerJob {
    ProducerJob { stage, holds_engine: engine, holds_scope: scope, measured }
}

/// The error that ends a job whose pending operation failed.
pub open spec fn failure_of(s: Stage) -> LabelError {
    match s {
        Stage::CreatingScope | Stage::Persisting => LabelError::StorageError,
        _ => LabelError::DocumentEngineError,
    }
}

/// Where a job goes on an event, and what it asks for then. An event that does
/// not answer the pending operation is taken as an engine fault.
pub open spec fn transition(j: ProducerJob, ev: JobEvent) -> (ProducerJob, JobAction) {
    let abort = |e: LabelError| (job(Stage::Failed, false, false, j.measured), JobAction::Abort(e, j.holds_scope));
    match (j.stage, ev) {
        (Stage::AwaitingEngine, JobEvent::Done) =>
            (job(Stage::CreatingScope, true, false, None), JobAction::CreateScope),
        (Stage::CreatingScope, JobEvent::Done) =>
            (job(Stage::Loading, true, true, None), JobAction::Load),
        (Stage::Loading, JobEvent::Done) =>
            (job(Stage::Measuring, true, true, None), JobAction::Measure),
        (Stage::Measuring, JobEvent::Measured(m)) =>
            if label_fits(m) {
                (job(Stage::Exporting, true, true, Some(m)), JobAction::Export(dimensions_of(m)))
            } else {
                abort(LabelError::ElementNotFound)
            },
        (Stage::Measuring, JobEvent::LabelMissing) => abort(LabelError::ElementNotFound),
        (Stage::Exporting, JobEvent::Done) =>
            (job(Stage::Persisting, true, true, j.measured), JobAction::Persist),
        (Stage::Persisting, JobEvent::Done) =>
            (job(Stage::Finished, false, false, j.measured), JobAction::Finish(dimensions_of(j.measured.unwrap()))),
        (Stage::Finished, _) | (Stage::Failed, _) => (j, JobAction::Abort(LabelError::DocumentEngineError, false)),
        (s, JobEvent::Failed) => abort(failure_of(s)),
        _ => abort(LabelError::DocumentEngineError),
    }
}

impl ProducerJob {
    /// What the job holds at each stage: the engine from its acquisition until
    /// the job ends, the storage from its creation until the job ends, and a
    /// label of some size once measured.
    pub open spec fn wf(&self) -> bool {
        match self.stage {
            Stage::AwaitingEngine => !self.holds_engine && !self.holds_scope && self.measured is None,
            Stage::CreatingScope => self.holds_engine && !self.holds_scope && self.measured is None,
            Stage::Loading | Stage::Measuring =>
                self.holds_engine && self.holds_scope && self.measured is None,
            Stage::Exporting | Stage::Persisting =>
                self.holds_engine && self.holds_scope && (self.measured matches Some(m) && label_fits(m)),
            Stage::Finished =>
                !self.holds_engine && !self.holds_scope && (self.measured matches Some(m) && label_fits(m)),
            Stage::Failed => !self.holds_engine && !self.holds_scope,
        }
    }

    /// A new job, asking for the engine.
    pub fn start() -> (r: (ProducerJob, JobAction))
        ensures
            r.0.wf(),
            r.0 == job(Stage::AwaitingEngine, false, false, None),
            r.1 == JobAction::AcquireEngine,
    {
        (
            ProducerJob { stage: Stage::AwaitingEngine, holds_engine: false, holds_scope: false, measured: None },
            JobAction::AcquireEngine,
        )
    }

    /// The job's next state and request, given the outcome of its pending operation.
    pub fn step(&self, ev: JobEvent) -> (r: (ProducerJob, JobAction))
        requires
            self.wf(),
        ensures
            r == transition(*self, ev),
            r.0.wf(),
    {
        let abort_with = |e: LabelError| -> (r: (ProducerJob, JobAction))
            ensures
                r == (job(Stage::Failed, false, false, self.measured), JobAction::Abort(e, self.holds_scope)),
            {
                (
                    ProducerJob { stage: Stage::Failed, holds_engine: false, holds_scope: false, measured: self.measured },
                    JobAction::Abort(e, self.holds_scope),
                )
            };
        match (self.stage, ev) {
            (Stage::AwaitingEngine, JobEvent::Done) => (
                ProducerJob { stage: Stage::CreatingScope, holds_engine: true, holds_scope: false, measured: None },
                JobAction::CreateScope,
            ),
            (Stage::CreatingScope, JobEvent::Done) => (
                ProducerJob { stage: Stage::Loading, holds_engine: true, holds_scope: true, measured: None },
                JobAction::Load,
            ),
            (Stage::Loading, JobEvent::Done) => (
                ProducerJob { stage: Stage::Measuring, holds_engine: true, holds_scope: true, measured: None },
                JobAction::Measure,
            ),
            (Stage::Measuring, JobEvent::Measured(m)) => {
                let d = physical_dimensions(m);
                if d.width_um > 0 && d.height_um > 0 {
                    (
                        ProducerJob { stage: Stage::Exporting, holds_engine: true, holds_scope: true, measured: Some(m) },
                        JobAction::Export(d),
                    )
                } else {
                    abort_with(LabelError::ElementNotFound)
                }
            },
            (Stage::Measuring, JobEvent::LabelMissing) => abort_with(LabelError::ElementNotFound),
            (Stage::Exporting, JobEvent::Done) => (
                ProducerJob { stage: Stage::Persisting, holds_engine: true, holds_scope: true, measured: self.measured },
                JobAction::Persist,
            ),
            (Stage::Persisting, JobEvent::Done) => {
                let m = self.measured.unwrap();
                (
                    ProducerJob { stage: Stage::Finished, holds_engine: false, holds_scope: false, measured: self.measured },
                    JobAction::Finish(physical_dimensions(m)),
                )
            },
            (Stage::Finished, _) | (Stage::Failed, _) => (*self, JobAction::Abort(LabelError::DocumentEngineError, false)),
            (Stage::CreatingScope, JobEvent::Failed) | (Stage::Persisting, JobEvent::Failed) =>
                abort_with(LabelError::StorageError),
            (_, JobEvent::Failed) => abort_with(LabelError::DocumentEngineError),
            _ => abort_with(LabelError::DocumentEngineError),
        }
    }
}

/// The engine is held by a job for each engine operation it asks for, was held
/// before, and is let go when the job ends: two jobs that share one engine
/// never interleave their operations.
pub proof fn lemma_engine_held_throughout(j: ProducerJob, ev: JobEvent)
    requires
        j.wf(),
    ensures
        is_engine_operation(transition(j, ev).1) ==> j.holds_engine && transition(j, ev).0.holds_engine,
        is_terminal(transition(j, ev).0.stage) ==> !transition(j, ev).0.holds_engine,
        !is_terminal(j.stage) && j.stage != Stage::AwaitingEngine ==> j.holds_engine,
{
}

/// A job's storage is never left behind: a failing job releases it exactly
/// when it holds it, and a finished job hands it to the artifact.
pub proof fn lemma_scope_never_leaked(j: ProducerJob, ev: JobEvent)
    requires
        j.wf(),
    ensures
        is_terminal(transition(j, ev).0.stage) ==> !transition(j, ev).0.holds_scope,
        !is_terminal(j.stage) ==> (transition(j, ev).1 matches JobAction::Abort(_, release) ==> release
            == j.holds_scope),
        transition(j, ev).1 is Finish ==> j.holds_scope,
{
}

/// A label that is missing, or of no size, ends the job with `ElementNotFound`;
/// no job exports or finishes a page with a zero dimension.
pub proof fn lemma_no_zero_size_artifact(j: ProducerJob, ev: JobEvent)
    requires
        j.wf(),
    ensures
        j.stage == Stage::Measuring && ev == JobEvent::LabelMissing ==> transition(j, ev).1
            == JobAction::Abort(LabelError::ElementNotFound, true),
        j.stage == Stage::Measuring && (ev matches JobEvent::Measured(m) && !label_fits(m))
            ==> transition(j, ev).1 == JobAction::Abort(LabelError::ElementNotFound, true),
        transition(j, ev).1 matches JobAction::Export(d) ==> d.width_um > 0 && d.height_um > 0,
        transition(j, ev).1 matches JobAction::Finish(d) ==> d.width_um > 0 && d.height_um > 0,
{
}

/// The page is exported, and the artifact finished, at the physical dimensions
/// of the measured label.
pub proof fn lemma_artifact_matches_measurement(j: ProducerJob, m: Measurement, ev: JobEvent)
    requires
        j.wf(),
    ensures
        j.stage == Stage::Measuring && label_fits(m) ==> transition(j, JobEvent::Measured(m)).1
            == JobAction::Export(dimensions_of(m)) && transition(j, JobEvent::Measured(m)).0.measured
            == Some(m),
        transition(j, ev).1 matches JobAction::Finish(d) ==> j.measured matches Some(m) && d
            == dimensions_of(m),
{
}

/// A job whose every operation succeeds, on a label of some size, finishes
/// with the physical dimensions of the measured label. A label measures to
/// some size whenever both sides span at least four thousandths of a pixel.
pub proof fn lemma_successful_run_dimensions(m: Measurement)
    ensures
        m.width_mpx >= 4 && m.height_mpx >= 4 ==> label_fits(m),
        label_fits(m) ==> transition(
            transition(
                transition(
                    transition(
                        transition(
                            transition(job(Stage::AwaitingEngine, false, false, None), JobEvent::Done).0,
                            JobEvent::Done,
                        ).0,
                        JobEvent::Done,
                    ).0,
                    JobEvent::Measured(m),
                ).0,
                JobEvent::Done,
            ).0,
            JobEvent::Done,
        ).1 == JobAction::Finish(dimensions_of(m)),
{
    let least: int = 4 * 25400int;
    if m.width_mpx >= 4 {
        vstd::arithmetic::div_mod::lemma_div_is_ordered(least, m.width_mpx as int * 25400, 96000);
    }
    if m.height_mpx >= 4 {
        vstd::arithmetic::div_mod::lemma_div_is_ordered(least, m.height_mpx as int * 25400, 96000);
    }
}

} // verus!
