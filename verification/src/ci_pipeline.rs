//! The record of one run of the build pipeline: its stages, their status
//! and how long they took.

use crate::collections::{lemma_select_ends, lemma_select_step, targets};
use crate::text::{
    decimal,
    joined,
    lemma_joined_ends,
    lemma_joined_step,
    push_count_field,
    push_field,
    text_or_empty,
    same_text,
    with_texts,
};
use vstd::prelude::*;

verus! {

/// Where a stage stands.
#[derive(Debug, Clone, Copy, PartialEq, Eq, Structural)]
pub enum StageStatus {
    Pending,
    Running,
    Success,
    Failed,
    Skipped,
}

impl StageStatus {
    /// The name of the status.
    pub open spec fn name_text(self) -> Seq<char> {
        match self {
            StageStatus::Pending => "Pending"@,
            StageStatus::Running => "Running"@,
            StageStatus::Success => "Success"@,
            StageStatus::Failed => "Failed"@,
            StageStatus::Skipped => "Skipped"@,
        }
    }

    /// The name of the status.
    pub fn name(&self) -> (name: &'static str)
        ensures
            name@ == self.name_text(),
    {
        match self {
            StageStatus::Pending => "Pending",
            StageStatus::Running => "Running",
            StageStatus::Success => "Success",
            StageStatus::Failed => "Failed",
            StageStatus::Skipped => "Skipped",
        }
    }
}

/// One stage of the pipeline.
#[derive(Debug, Clone)]
pub struct PipelineStage {
    pub stage_id: String,
    pub stage_name: String,
    pub description: String,
    pub commands: Vec<String>,
    pub timeout_seconds: u64,
    pub status: StageStatus,
    pub duration_ms: u64,
    pub error_message: Option<String>,
}

/// The moment at which a fresh pipeline started.
pub open spec fn initial_start() -> Seq<char> {
    "2025-11-21T00:00:00Z"@
}

/// The position of the first stage with the id, or the number of stages
/// where there is none.
pub open spec fn stage_position(stages: Seq<PipelineStage>, stage_id: Seq<char>) -> int
    decreases stages.len(),
{
    if stages.len() == 0 {
        0
    } else if stages[0].stage_id@ == stage_id {
        0
    } else {
        1 + stage_position(stages.skip(1), stage_id)
    }
}

/// The stage position is a position or the number of stages.
pub proof fn lemma_stage_position(stages: Seq<PipelineStage>, stage_id: Seq<char>)
    ensures
        0 <= stage_position(stages, stage_id) <= stages.len(),
        stage_position(stages, stage_id) < stages.len() ==> stages[stage_position(
            stages,
            stage_id,
        )].stage_id@ == stage_id,
        forall|i: int|
            0 <= i < stage_position(stages, stage_id) ==> (#[trigger] stages[i]).stage_id@
                != stage_id,
    decreases stages.len(),
{
    if stages.len() > 0 && stages[0].stage_id@ != stage_id {
        lemma_stage_position(stages.skip(1), stage_id);
        assert forall|i: int| 0 <= i < stage_position(stages, stage_id) implies (
        #[trigger] stages[i]).stage_id@ != stage_id by {
            if i > 0 {
                assert(stages.skip(1)[i - 1] == stages[i]);
            }
        }
    }
}

/// The line of one stage in the report, with the text of its duration.
pub open spec fn stage_line(stage: PipelineStage, duration: Seq<char>) -> Seq<char> {
    "  "@ + stage.stage_name@ + " ("@ + stage.status.name_text() + ") - "@ + duration + "s\n"@
}

/// One run of the pipeline.
#[derive(Debug, Clone)]
pub struct CIPipeline {
    pub pipeline_id: String,
    pub branch: String,
    pub commit_hash: String,
    pub stages: Vec<PipelineStage>,
    pub total_stages: usize,
    pub completed_stages: usize,
    pub failed_stages: usize,
    pub total_duration_ms: u64,
    pub started_at: String,
    pub completed_at: Option<String>,
}

impl CIPipeline {
    /// The pipeline has no stage yet.
    pub open spec fn is_blank(&self) -> bool {
        &&& self.stages@.len() == 0
        &&& self.total_stages == 0
        &&& self.completed_stages == 0
        &&& self.failed_stages == 0
        &&& self.total_duration_ms == 0
        &&& self.started_at@ == initial_start()
        &&& self.completed_at.is_none()
    }

    /// Whether every stage succeeded.
    pub open spec fn successful(&self) -> bool {
        self.failed_stages == 0 && self.completed_stages == self.total_stages
    }

    /// The stages with the given status, in their order.
    pub open spec fn with_status(&self, status: StageStatus) -> Seq<PipelineStage> {
        self.stages@.filter(|s: PipelineStage| s.status == status)
    }

    /// The report on the run. The success rate, the duration of the run and
    /// the durations of the stages, one for each stage in order, are shown
    /// as the texts that the caller made of them; a stage beyond the end of
    /// the list is shown without a number.
    pub open spec fn report(
        &self,
        success_rate: Seq<char>,
        duration: Seq<char>,
        stage_durations: Seq<String>,
    ) -> Seq<char> {
        "=== CI PIPELINE REPORT ===\n\n"@ + "Pipeline: "@ + self.pipeline_id@ + "\n"@ + "Branch: "@
            + self.branch@ + "\n"@ + "Commit: "@ + self.commit_hash@ + "\n"@ + "Started: "@
            + self.started_at@ + "\n\n"@ + "Total Stages: "@ + decimal(self.total_stages as nat)
            + "\n"@ + "  Completed: "@ + decimal(self.completed_stages as nat) + "\n"@
            + "  Failed: "@ + decimal(self.failed_stages as nat) + "\n"@ + "Success Rate: "@
            + success_rate + "%\n"@ + "Duration: "@ + duration + "s\n\n"@ + "Stages:\n"@ + joined(
            with_texts(self.stages@, stage_durations),
            |s: (PipelineStage, Seq<char>)| stage_line(s.0, s.1),
        )
    }

    pub fn new(pipeline_id: String, branch: String, commit_hash: String) -> (pipeline: Self)
        ensures
            pipeline.is_blank(),
            pipeline.pipeline_id == pipeline_id,
            pipeline.branch == branch,
            pipeline.commit_hash == commit_hash,
    {
        Self {
            pipeline_id,
            branch,
            commit_hash,
            stages: Vec::new(),
            total_stages: 0,
            completed_stages: 0,
            failed_stages: 0,
            total_duration_ms: 0,
            started_at: String::from_str("2025-11-21T00:00:00Z"),
            completed_at: None,
        }
    }

    pub fn add_stage(&mut self, stage: PipelineStage)
        requires
            old(self).total_stages < usize::MAX,
        ensures
            final(self).stages@ == old(self).stages@.push(stage),
            *final(self) == (CIPipeline {
                stages: final(self).stages,
                total_stages: (old(self).total_stages + 1) as usize,
                ..*old(self)
            }),
    {
        self.total_stages += 1;
        self.stages.push(stage);
    }

    /// Records the outcome of the first stage with the id: its status and
    /// its duration, which is added to the total. A success counts as a
    /// completed stage, a failure as a failed one. Says whether there is
    /// such a stage; where there is none, nothing changes.
    pub fn update_stage_status(&mut self, stage_id: &str, status: StageStatus, duration_ms: u64) -> (found:
        bool)
        requires
            old(self).total_duration_ms + duration_ms <= u64::MAX,
            old(self).completed_stages < usize::MAX,
            old(self).failed_stages < usize::MAX,
        ensures
            found == (stage_position(old(self).stages@, stage_id@) < old(self).stages@.len()),
            !found ==> *final(self) == *old(self),
            found ==> ({
                let at = stage_position(old(self).stages@, stage_id@);
                &&& final(self).stages@ == old(self).stages@.update(
                    at,
                    PipelineStage { status, duration_ms, ..old(self).stages@[at] },
                )
                &&& *final(self) == (CIPipeline {
                    stages: final(self).stages,
                    total_duration_ms: (old(self).total_duration_ms + duration_ms) as u64,
                    completed_stages: if status == StageStatus::Success {
                        (old(self).completed_stages + 1) as usize
                    } else {
                        old(self).completed_stages
                    },
                    failed_stages: if status == StageStatus::Failed {
                        (old(self).failed_stages + 1) as usize
                    } else {
                        old(self).failed_stages
                    },
                    ..*old(self)
                })
            }),
    {
        let mut i: usize = 0;
        proof {
            lemma_stage_position(self.stages@, stage_id@);
        }
        while i < self.stages.len()
            invariant
                i <= self.stages@.len(),
                *self == *old(self),
                self.total_duration_ms + duration_ms <= u64::MAX,
                self.completed_stages < usize::MAX,
                self.failed_stages < usize::MAX,
                forall|j: int| 0 <= j < i ==> (#[trigger] self.stages@[j]).stage_id@ != stage_id@,
            decreases self.stages@.len() - i,
        {
            if same_text(self.stages[i].stage_id.as_str(), stage_id) {
                proof {
                    lemma_stage_position(self.stages@, stage_id@);
                }
                let stage = &mut self.stages[i];
                stage.status = status;
                stage.duration_ms = duration_ms;
                self.total_duration_ms += duration_ms;
                if status == StageStatus::Success {
                    self.completed_stages += 1;
                } else if status == StageStatus::Failed {
                    self.failed_stages += 1;
                }
                return true;
            }
            i += 1;
        }
        proof {
            lemma_stage_position(self.stages@, stage_id@);
        }
        false
    }

    pub fn is_successful(&self) -> (successful: bool)
        ensures
            successful == self.successful(),
    {
        self.failed_stages == 0 && self.completed_stages == self.total_stages
    }

    /// The stages with the given status, in their order.
    pub fn get_stages_by_status(&self, status: StageStatus) -> (found: Vec<&PipelineStage>)
        ensures
            targets(found@) == self.with_status(status),
    {
        let ghost items = self.stages@;
        let ghost keep = |s: PipelineStage| s.status == status;
        let mut found: Vec<&PipelineStage> = Vec::new();
        let mut i: usize = 0;
        proof {
            lemma_select_ends(items, keep);
            assert(targets(found@) =~= Seq::<PipelineStage>::empty());
        }
        while i < self.stages.len()
            invariant
                i <= items.len(),
                items == self.stages@,
                keep == |s: PipelineStage| s.status == status,
                targets(found@) == items.take(i as int).filter(keep),
            decreases items.len() - i,
        {
            proof {
                lemma_select_step(items, i as int, keep);
            }
            let stage = &self.stages[i];
            if stage.status == status {
                let ghost before = targets(found@);
                found.push(stage);
                assert(targets(found@) =~= before.push(*stage));
            }
            i += 1;
        }
        proof {
            lemma_select_ends(items, keep);
        }
        found
    }

    /// The report on the run, as text. The success rate and the durations
    /// in seconds are fractions, so the caller renders them and hands the
    /// texts in: the rate, the duration of the run, and one duration for
    /// each stage in order.
    pub fn generate_report(
        &self,
        success_rate: &str,
        duration: &str,
        stage_durations: &[String],
    ) -> (report: String)
        ensures
            report@ == self.report(success_rate@, duration@, stage_durations@),
    {
        let mut report = String::from_str("=== CI PIPELINE REPORT ===\n\n");
        push_field(&mut report, "Pipeline: ", self.pipeline_id.as_str(), "\n");
        push_field(&mut report, "Branch: ", self.branch.as_str(), "\n");
        push_field(&mut report, "Commit: ", self.commit_hash.as_str(), "\n");
        push_field(&mut report, "Started: ", self.started_at.as_str(), "\n\n");
        push_count_field(&mut report, "Total Stages: ", self.total_stages, "\n");
        push_count_field(&mut report, "  Completed: ", self.completed_stages, "\n");
        push_count_field(&mut report, "  Failed: ", self.failed_stages, "\n");
        push_field(&mut report, "Success Rate: ", success_rate, "%\n");
        push_field(&mut report, "Duration: ", duration, "s\n\n");
        report.append("Stages:\n");
        let ghost line = |s: (PipelineStage, Seq<char>)| stage_line(s.0, s.1);
        let ghost head = report@;
        let ghost items = with_texts(self.stages@, stage_durations@);
        let mut i: usize = 0;
        proof {
            lemma_joined_ends(items, line);
            assert(report@ =~= head + joined(items.take(0), line));
        }
        while i < self.stages.len()
            invariant
                i <= items.len(),
                items == with_texts(self.stages@, stage_durations@),
                line == |s: (PipelineStage, Seq<char>)| stage_line(s.0, s.1),
                report@ == head + joined(items.take(i as int), line),
            decreases items.len() - i,
        {
            proof {
                lemma_joined_step(items, i as int, line);
            }
            let ghost before = report@;
            let stage = &self.stages[i];
            push_field(&mut report, "  ", stage.stage_name.as_str(), " (");
            report.append(stage.status.name());
            push_field(&mut report, ") - ", text_or_empty(stage_durations, i), "s\n");
            assert(report@ =~= before + stage_line(items[i as int].0, items[i as int].1));
            assert(report@ =~= head + joined(items.take(i + 1), line));
            i += 1;
        }
        proof {
            lemma_joined_ends(items, line);
        }
        report
    }
}

impl Default for CIPipeline {
    fn default() -> (pipeline: Self)
        ensures
            pipeline.is_blank(),
            pipeline.pipeline_id@ == "pipeline-1"@,
            pipeline.branch@ == "main"@,
            pipeline.commit_hash@ == "abc123"@,
    {
        Self::new(
            String::from_str("pipeline-1"),
            String::from_str("main"),
            String::from_str("abc123"),
        )
    }
}

} // verus!
