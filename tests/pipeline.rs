use fusequery::pipeline::{Pipeline, PipelineError, ProcessorKind};

#[test]
fn execute_merges_branches_once() {
    let mut p = Pipeline::create();
    assert_eq!(p.add_simple_transform(), Err(PipelineError::NoSource));
    assert_eq!(p.execute(), Err(PipelineError::NoSource));
    p.add_source().unwrap();
    p.add_source().unwrap();
    p.add_source().unwrap();
    assert_eq!(p.last_pipe_size(), 3);
    p.add_simple_transform().unwrap();
    assert_eq!(p.last_pipe_size(), 3);
    assert_eq!(p.add_source(), Err(PipelineError::SourceAfterTransform));
    p.execute().unwrap();
    assert_eq!(p.last_pipe_size(), 1);
    assert_eq!(p.stages.last().unwrap().kind, ProcessorKind::Merge);
    assert_eq!(p.execute(), Err(PipelineError::AlreadyExecuted));
    assert_eq!(p.add_simple_transform(), Err(PipelineError::AlreadyExecuted));
    assert_eq!(p.merge_processor(), Err(PipelineError::AlreadyExecuted));
    assert_eq!(p.add_source(), Err(PipelineError::AlreadyExecuted));
}

#[test]
fn single_branch_needs_no_merge() {
    let mut p = Pipeline::create();
    p.add_source().unwrap();
    p.add_simple_transform().unwrap();
    p.execute().unwrap();
    assert_eq!(p.stages.len(), 2);
}
