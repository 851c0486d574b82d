//! The processor graph: sources, transforms applied branch by branch, and a
//! merge that joins the branches into one output stream.

use vstd::prelude::*;

verus! {

/// The role of a stage of processors.
#[derive(Clone, Copy, Debug, PartialEq, Eq, Structural)]
pub enum ProcessorKind {
    Source,
    Transform,
    Merge,
}

/// A stage: processors of one kind, one per parallel branch.
#[derive(Clone, Copy, Debug, PartialEq, Eq, Structural)]
pub struct Stage {
    pub kind: ProcessorKind,
    pub width: usize,
}

/// Why a pipeline refused a request.
#[derive(Clone, Copy, Debug, PartialEq, Eq, Structural)]
pub enum PipelineError {
    /// The pipeline has already been executed.
    AlreadyExecuted,
    /// There is no source yet.
    NoSource,
    /// Sources must all be added before the first transform or merge.
    SourceAfterTransform,
}

pub struct Pipeline {
    pub stages: Vec<Stage>,
    pub executed: bool,
}

impl Pipeline {
    /// Stages start with the sources, and every stage has at least one
    /// processor; a merge has exactly one.
    pub open spec fn wf(&self) -> bool {
        &&& forall|i: int| 0 <= i < self.stages@.len() ==> (#[trigger] self.stages@[i]).width >= 1
        &&& forall|i: int| 0 <= i < self.stages@.len() ==> ((#[trigger] self.stages@[i]).kind == ProcessorKind::Source <==> i == 0)
        &&& forall|i: int| 0 <= i < self.stages@.len() && (#[trigger] self.stages@[i]).kind == ProcessorKind::Merge ==> self.stages@[i].width == 1
        &&& self.executed ==> self.stages@.len() > 0 && self.stages@.last().width == 1
    }

    pub fn create() -> (r: Pipeline)
        ensures
            r.wf(),
            r.stages@.len() == 0,
            !r.executed,
    {
        Pipeline { stages: Vec::new(), executed: false }
    }

    /// The number of parallel branches at the end of the pipeline.
    pub fn last_pipe_size(&self) -> (r: usize)
        ensures
            r == if self.stages@.len() == 0 { 0 } else { self.stages@.last().width as int },
    {
        if self.stages.len() == 0 {
            0
        } else {
            self.stages[self.stages.len() - 1].width
        }
    }

    /// Adds one more source branch.
    pub fn add_source(&mut self) -> (r: Result<(), PipelineError>)
        requires
            old(self).wf(),
        ensures
            final(self).wf(),
            final(self).executed == old(self).executed,
            old(self).executed ==> r == Err::<(), PipelineError>(PipelineError::AlreadyExecuted),
            !old(self).executed && old(self).stages@.len() > 1 ==> r == Err::<(), PipelineError>(PipelineError::SourceAfterTransform),
            r is Err ==> final(self).stages@ == old(self).stages@,
            !old(self).executed && old(self).stages@.len() == 0 ==> r is Ok && final(self).stages@ == seq![
                Stage { kind: ProcessorKind::Source, width: 1 },
            ],
            !old(self).executed && old(self).stages@.len() == 1 && old(self).stages@[0].width < usize::MAX ==> r is Ok
                && final(self).stages@ == seq![Stage { kind: ProcessorKind::Source, width: (old(self).stages@[0].width + 1) as usize }],
    {
        if self.executed {
            return Err(PipelineError::AlreadyExecuted);
        }
        if self.stages.len() == 0 {
            self.stages.push(Stage { kind: ProcessorKind::Source, width: 1 });
            assert(self.stages@ =~= seq![Stage { kind: ProcessorKind::Source, width: 1 }]);
            return Ok(());
        }
        if self.stages.len() > 1 || self.stages[0].width == usize::MAX {
            return Err(PipelineError::SourceAfterTransform);
        }
        let w = self.stages[0].width + 1;
        self.stages.set(0, Stage { kind: ProcessorKind::Source, width: w });
        assert(self.stages@ =~= seq![Stage { kind: ProcessorKind::Source, width: w }]);
        Ok(())
    }

    /// Adds a transform on every branch.
    pub fn add_simple_transform(&mut self) -> (r: Result<(), PipelineError>)
        requires
            old(self).wf(),
        ensures
            final(self).wf(),
            final(self).executed == old(self).executed,
            old(self).executed ==> r == Err::<(), PipelineError>(PipelineError::AlreadyExecuted),
            !old(self).executed && old(self).stages@.len() == 0 ==> r == Err::<(), PipelineError>(PipelineError::NoSource),
            r is Err ==> final(self).stages@ == old(self).stages@,
            !old(self).executed && old(self).stages@.len() > 0 ==> r is Ok && final(self).stages@ == old(self).stages@.push(
                Stage { kind: ProcessorKind::Transform, width: old(self).stages@.last().width },
            ),
    {
        self.push_stage(ProcessorKind::Transform)
    }

    /// Joins every branch into one.
    pub fn merge_processor(&mut self) -> (r: Result<(), PipelineError>)
        requires
            old(self).wf(),
        ensures
            final(self).wf(),
            final(self).executed == old(self).executed,
            old(self).executed ==> r == Err::<(), PipelineError>(PipelineError::AlreadyExecuted),
            !old(self).executed && old(self).stages@.len() == 0 ==> r == Err::<(), PipelineError>(PipelineError::NoSource),
            r is Err ==> final(self).stages@ == old(self).stages@,
            !old(self).executed && old(self).stages@.len() > 0 ==> r is Ok && final(self).stages@ == old(self).stages@.push(
                Stage { kind: ProcessorKind::Merge, width: 1 },
            ),
    {
        self.push_stage(ProcessorKind::Merge)
    }

    fn push_stage(&mut self, kind: ProcessorKind) -> (r: Result<(), PipelineError>)
        requires
            old(self).wf(),
            kind != ProcessorKind::Source,
        ensures
            final(self).wf(),
            final(self).executed == old(self).executed,
            old(self).executed ==> r == Err::<(), PipelineError>(PipelineError::AlreadyExecuted),
            !old(self).executed && old(self).stages@.len() == 0 ==> r == Err::<(), PipelineError>(PipelineError::NoSource),
            r is Err ==> final(self).stages@ == old(self).stages@,
            !old(self).executed && old(self).stages@.len() > 0 ==> r is Ok && final(self).stages@ == old(self).stages@.push(
                Stage {
                    kind,
                    width: if kind == ProcessorKind::Merge { 1 } else { old(self).stages@.last().width },
                },
            ),
    {
        if self.executed {
            return Err(PipelineError::AlreadyExecuted);
        }
        if self.stages.len() == 0 {
            return Err(PipelineError::NoSource);
        }
        let width = match kind {
            ProcessorKind::Merge => 1,
            _ => self.stages[self.stages.len() - 1].width,
        };
        self.stages.push(Stage { kind, width });
        Ok(())
    }

    /// Wires the stages into one output stream, merging the branches first
    /// when there are several. A pipeline is executed at most once.
    pub fn execute(&mut self) -> (r: Result<(), PipelineError>)
        requires
            old(self).wf(),
        ensures
            final(self).wf(),
            old(self).executed ==> r == Err::<(), PipelineError>(PipelineError::AlreadyExecuted) && *final(self) == *old(self),
            !old(self).executed && old(self).stages@.len() == 0 ==> r == Err::<(), PipelineError>(PipelineError::NoSource)
                && !final(self).executed,
            !old(self).executed && old(self).stages@.len() > 0 ==> r is Ok && final(self).executed && final(self).stages@ == if old(
                self,
            ).stages@.last().width > 1 {
                old(self).stages@.push(Stage { kind: ProcessorKind::Merge, width: 1 })
            } else {
                old(self).stages@
            },
    {
        if self.executed {
            return Err(PipelineError::AlreadyExecuted);
        }
        if self.stages.len() == 0 {
            return Err(PipelineError::NoSource);
        }
        if self.stages[self.stages.len() - 1].width > 1 {
            self.stages.push(Stage { kind: ProcessorKind::Merge, width: 1 });
        }
        self.executed = true;
        Ok(())
    }
}

} // verus!
