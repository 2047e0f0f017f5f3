//! The life of a run, stage by stage.
//!
//! A run opens the store, lets the tasks work until the deadline, sums up,
//! removes what the store left on disk and exports the series. Each stage
//! starts only when the one before it has succeeded; the first failure
//! ends the run. The store's files go before the export is written: a
//! run that cannot clean up leaves no export behind.

use vstd::prelude::*;

verus! {

/// Where a run stands.
#[derive(Clone, Copy, Debug, PartialEq, Eq, Structural)]
pub enum Stage {
    /// The store is being opened and the series seeded.
    Initializing,
    /// The workload tasks and the sampler are at work.
    Running,
    /// The final totals are being computed and shown.
    Aggregating,
    /// The store's files are being removed.
    CleaningUp,
    /// The series is being exported.
    Exporting,
    /// Every stage has succeeded.
    Done,
    /// A stage has failed.
    Aborted,
}

/// How a stage ended.
#[derive(Clone, Copy, Debug, PartialEq, Eq, Structural)]
pub enum StageResult {
    Succeeded,
    Failed,
}

/// How a task ended.
#[derive(Clone, Copy, Debug, PartialEq, Eq, Structural)]
pub enum TaskEnd {
    /// The task ran until its deadline. Operations that the store refused
    /// on the way are counted and do not change this.
    Completed,
    /// The task broke off.
    Faulted,
}

impl Stage {
    /// The stage that comes after `self` when `self` has succeeded.
    pub open spec fn successor(self) -> Stage {
        match self {
            Stage::Initializing => Stage::Running,
            Stage::Running => Stage::Aggregating,
            Stage::Aggregating => Stage::CleaningUp,
            Stage::CleaningUp => Stage::Exporting,
            Stage::Exporting => Stage::Done,
            Stage::Done => Stage::Done,
            Stage::Aborted => Stage::Aborted,
        }
    }

    /// Whether the run is over.
    pub open spec fn is_final_spec(self) -> bool {
        self == Stage::Done || self == Stage::Aborted
    }

    /// Where the run stands once `self` has ended in `result`. A run that
    /// is over stays where it is.
    pub open spec fn next(self, result: StageResult) -> Stage {
        if self.is_final_spec() {
            self
        } else if result == StageResult::Failed {
            Stage::Aborted
        } else {
            self.successor()
        }
    }

    /// How many stages lie between `self` and `Done`.
    pub open spec fn stages_left(self) -> nat {
        match self {
            Stage::Initializing => 5,
            Stage::Running => 4,
            Stage::Aggregating => 3,
            Stage::CleaningUp => 2,
            Stage::Exporting => 1,
            Stage::Done => 0,
            Stage::Aborted => 0,
        }
    }

    /// Where a run that stands at `self` gets to as its stages end in
    /// `results`, one after the other.
    pub open spec fn after(self, results: Seq<StageResult>) -> Stage
        decreases results.len(),
    {
        if results.len() == 0 {
            self
        } else {
            self.after(results.drop_last()).next(results.last())
        }
    }

    /// Where a run begins.
    pub fn start() -> (s: Stage)
        ensures
            s == Stage::Initializing,
    {
        Stage::Initializing
    }

    /// Whether the run is over.
    pub fn is_final(&self) -> (over: bool)
        ensures
            over == self.is_final_spec(),
    {
        match self {
            Stage::Done => true,
            Stage::Aborted => true,
            _ => false,
        }
    }

    /// The status that the process ends with: zero for a run that is done,
    /// one for any other.
    pub fn exit_code(&self) -> (code: u8)
        ensures
            code == (if *self == Stage::Done { 0u8 } else { 1u8 }),
    {
        match self {
            Stage::Done => 0,
            _ => 1,
        }
    }

    /// Where the run stands once the stage `self` has ended in `result`.
    pub fn advance(self, result: StageResult) -> (s: Stage)
        ensures
            s == self.next(result),
    {
        match self {
            Stage::Done => Stage::Done,
            Stage::Aborted => Stage::Aborted,
            _ => match result {
                StageResult::Failed => Stage::Aborted,
                StageResult::Succeeded => match self {
                    Stage::Initializing => Stage::Running,
                    Stage::Running => Stage::Aggregating,
                    Stage::Aggregating => Stage::CleaningUp,
                    Stage::CleaningUp => Stage::Exporting,
                    _ => Stage::Done,
                },
            },
        }
    }
}

/// How the running stage ends, given how each workload task ended: it
/// succeeds when every task has completed, and fails when one has faulted.
pub fn running_result(tasks: &Vec<TaskEnd>) -> (result: StageResult)
    ensures
        result == StageResult::Succeeded <==> forall|i: int|
            0 <= i < tasks.len() ==> tasks[i] == TaskEnd::Completed,
{
    let mut i: usize = 0;
    while i < tasks.len()
        invariant
            i <= tasks.len(),
            forall|j: int| 0 <= j < i ==> tasks[j] == TaskEnd::Completed,
        decreases tasks.len() - i,
    {
        match tasks[i] {
            TaskEnd::Faulted => {
                return StageResult::Failed;
            },
            TaskEnd::Completed => {},
        }
        i = i + 1;
    }
    StageResult::Succeeded
}

/// A run that is over stays over, whatever is reported to it.
pub proof fn lemma_final_stage_stays(stage: Stage, results: Seq<StageResult>)
    requires
        stage.is_final_spec(),
    ensures
        stage.after(results) == stage,
    decreases results.len(),
{
    if results.len() > 0 {
        lemma_final_stage_stays(stage, results.drop_last());
    }
}

/// While a run is not over, every stage so far has succeeded, and it has
/// moved one stage on for each.
pub proof fn lemma_progress_means_success(stage: Stage, results: Seq<StageResult>)
    requires
        stage.after(results) != Stage::Aborted,
        stage != Stage::Aborted,
        results.len() <= stage.stages_left(),
    ensures
        forall|i: int| 0 <= i < results.len() ==> results[i] == StageResult::Succeeded,
        stage.after(results).stages_left() + results.len() == stage.stages_left(),
    decreases results.len(),
{
    if results.len() > 0 {
        let before = results.drop_last();
        let reached = stage.after(before);
        if reached == Stage::Aborted {
            assert(reached.next(results.last()) == Stage::Aborted);
        }
        lemma_progress_means_success(stage, before);
        assert forall|i: int| 0 <= i < results.len() implies results[i]
            == StageResult::Succeeded by {
            if i < before.len() {
                assert(before[i] == results[i]);
            }
        }
    }
}

/// A run is done only after each of its five stages has succeeded: opening
/// the store, running the tasks, summing up, cleaning up and exporting.
pub proof fn lemma_done_only_after_every_stage(results: Seq<StageResult>)
    requires
        Stage::Initializing.after(results) == Stage::Done,
    ensures
        results.len() >= 5,
        forall|i: int| 0 <= i < 5 ==> results[i] == StageResult::Succeeded,
        Stage::Initializing.after(results.subrange(0, 5)) == Stage::Done,
    decreases results.len(),
{
    if results.len() <= 5 {
        lemma_progress_means_success(Stage::Initializing, results);
        assert(results.subrange(0, 5) =~= results);
    } else {
        let before = results.drop_last();
        let reached = Stage::Initializing.after(before);
        assert(reached.next(results.last()) == Stage::Done);
        if reached == Stage::Done {
            lemma_done_only_after_every_stage(before);
            assert(before.subrange(0, 5) =~= results.subrange(0, 5));
            assert forall|i: int| 0 <= i < 5 implies results[i] == StageResult::Succeeded by {
                assert(before[i] == results[i]);
            }
        } else {
            assert(reached == Stage::Exporting);
            lemma_stage_bounds_count(before);
        }
    }
}

/// A run that is not over has seen as many results as it has left stages
/// behind.
proof fn lemma_stage_bounds_count(results: Seq<StageResult>)
    requires
        !Stage::Initializing.after(results).is_final_spec(),
    ensures
        Stage::Initializing.after(results).stages_left() + results.len() == 5,
    decreases results.len(),
{
    if results.len() > 0 {
        let before = results.drop_last();
        let reached = Stage::Initializing.after(before);
        assert(!reached.is_final_spec());
        lemma_stage_bounds_count(before);
    }
}

} // verus!
