use fusequery::aggregate::{Accumulator, AggregateExpr, AggregateFunction, AggregatorPartialTransform};
use fusequery::block::{resolve_projection, DataBlock, DataField, DataSchema, DataType};
use fusequery::scan::{
    FetchOutcome, Partition, ScanAction, ScanConfigError, ScanErrorKind, ScanOutput, ScanScheduler,
};

fn schema(n: usize) -> DataSchema {
    DataSchema {
        fields: (0..n).map(|i| DataField { name: format!("c{}", i), data_type: DataType::UInt64 }).collect(),
    }
}

fn part(i: u64) -> Partition {
    Partition { location: format!("block-{}", i), length: 100 + i }
}

/// Runs a scan over catalog groups; fetches complete in the order given by
/// `pick` (an index into those in flight). Partition `i` decodes to a block of
/// three columns holding `i`, `10 * i` and `100 * i`, restricted to the
/// projection. Returns what the stream held and the partitions fetched.
fn run(
    limit: usize,
    projection: Option<Vec<usize>>,
    mut groups: Vec<Vec<Partition>>,
    fail: Option<usize>,
    pick: fn(usize) -> usize,
) -> (Vec<ScanOutput>, Vec<String>, usize) {
    let mut s = ScanScheduler::new(&schema(3), projection, limit).unwrap();
    groups.reverse();
    let mut in_flight: Vec<usize> = Vec::new();
    let mut out = Vec::new();
    let mut fetched = Vec::new();
    let mut max_in_flight = 0;
    loop {
        match s.next_action() {
            ScanAction::RequestPartitions(k) => {
                assert_eq!(k, limit);
                let reply: Result<Vec<Partition>, ()> = Ok(groups.pop().unwrap_or_default());
                s.on_partitions(reply);
            },
            ScanAction::Fetch(i) => {
                fetched.push(s.parts[i].location.clone());
                in_flight.push(i);
                max_in_flight = std::cmp::max(max_in_flight, in_flight.len());
            },
            ScanAction::Wait => {
                let k = pick(in_flight.len());
                let i = in_flight.remove(k);
                let outcome = if fail == Some(i) {
                    FetchOutcome::ReadFailed("disk".to_string())
                } else {
                    let v = i as u64;
                    let full = vec![vec![v], vec![10 * v], vec![100 * v]];
                    let columns = s.projection.iter().map(|&c| full[c].clone()).collect();
                    FetchOutcome::Block(DataBlock { columns, num_rows: 1 })
                };
                out.push(s.on_fetched(i, outcome));
            },
            ScanAction::Finished => break,
        }
    }
    (out, fetched, max_in_flight)
}

fn groups_of(n: u64, k: u64) -> Vec<Vec<Partition>> {
    let mut groups = Vec::new();
    let mut i = 0;
    while i < n {
        groups.push((i..std::cmp::min(i + k, n)).map(part).collect());
        i += k;
    }
    groups
}

fn sum_of(out: &[ScanOutput]) -> Accumulator {
    let sum = AggregateExpr { function: AggregateFunction::Sum, column: 0, deferred_add: None };
    let mut t = AggregatorPartialTransform::try_create(1, vec![sum], vec![]).unwrap();
    for o in out {
        if let ScanOutput::Emit(b) = o {
            t.consume(b).unwrap();
        }
    }
    t.finish()[0].accs[0]
}

#[test]
fn every_partition_is_visited_once() {
    for limit in 1..5 {
        let (out, fetched, max_in_flight) = run(limit, Some(vec![0]), groups_of(10, 3), None, |_| 0);
        let expected: Vec<String> = (0..10).map(|i| format!("block-{}", i)).collect();
        assert_eq!(fetched, expected);
        assert_eq!(out.len(), 10);
        assert!(max_in_flight <= limit);
    }
}

#[test]
fn concurrency_bound_does_not_change_result() {
    let (a, _, _) = run(1, Some(vec![0]), groups_of(12, 5), None, |_| 0);
    let (b, _, _) = run(4, Some(vec![0]), groups_of(12, 5), None, |n| n - 1);
    assert_eq!(sum_of(&a), sum_of(&b));
    assert_eq!(sum_of(&a), Accumulator { sum: 66, count: 12 });
}

#[test]
fn fetch_failure_ends_the_stream() {
    let (out, _, _) = run(3, Some(vec![0]), groups_of(8, 4), Some(2), |_| 0);
    let pos = out.iter().position(|o| matches!(o, ScanOutput::Fail(_))).unwrap();
    match &out[pos] {
        ScanOutput::Fail(e) => {
            assert_eq!(e.location, "block-2");
            assert!(matches!(&e.kind, ScanErrorKind::ReadFailed(m) if m == "disk"));
        },
        _ => unreachable!(),
    }
    assert!(out[pos + 1..].iter().all(|o| matches!(o, ScanOutput::Discard)));
}

#[test]
fn empty_partition_set_gives_empty_stream() {
    let (out, fetched, _) = run(2, None, vec![], None, |_| 0);
    assert!(out.is_empty());
    assert!(fetched.is_empty());
}

#[test]
fn catalog_error_ends_enumeration() {
    let mut s = ScanScheduler::new(&schema(3), None, 2).unwrap();
    assert_eq!(s.next_action(), ScanAction::RequestPartitions(2));
    let reply: Result<Vec<Partition>, String> = Err("gone".to_string());
    s.on_partitions(reply);
    assert!(s.exhausted);
    assert_eq!(s.next_action(), ScanAction::Finished);
}

#[test]
fn narrow_projection_emits_only_projected_columns() {
    let (out, _, _) = run(2, Some(vec![2, 0]), groups_of(4, 2), None, |_| 0);
    assert_eq!(out.len(), 4);
    for o in out.iter() {
        match o {
            ScanOutput::Emit(b) => assert_eq!(b.columns.len(), 2),
            _ => panic!("unexpected output"),
        }
    }
    let s = ScanScheduler::new(&schema(3), Some(vec![2, 0]), 2).unwrap();
    let names: Vec<&str> = s.output_schema.fields.iter().map(|f| f.name.as_str()).collect();
    assert_eq!(names, vec!["c2", "c0"]);
}

#[test]
fn block_of_wrong_width_is_an_error() {
    let mut s = ScanScheduler::new(&schema(3), Some(vec![1]), 1).unwrap();
    assert_eq!(s.next_action(), ScanAction::RequestPartitions(1));
    s.on_partitions::<()>(Ok(vec![part(7)]));
    assert_eq!(s.next_action(), ScanAction::Fetch(0));
    assert_eq!(s.next_action(), ScanAction::Wait);
    let wide = DataBlock { columns: vec![vec![1], vec![2]], num_rows: 1 };
    match s.on_fetched(0, FetchOutcome::Block(wide)) {
        ScanOutput::Fail(e) => {
            assert_eq!(e.location, "block-7");
            assert!(matches!(e.kind, ScanErrorKind::BadBlock));
        },
        _ => panic!("expected an error"),
    }
    assert_eq!(s.next_action(), ScanAction::Finished);
}

#[test]
fn no_data_is_an_error_and_unknown_fetch_is_dropped() {
    let mut s = ScanScheduler::new(&schema(1), None, 1).unwrap();
    s.next_action();
    s.on_partitions::<()>(Ok(vec![part(1)]));
    assert_eq!(s.next_action(), ScanAction::Fetch(0));
    assert!(matches!(s.on_fetched(5, FetchOutcome::NoData), ScanOutput::Discard));
    match s.on_fetched(0, FetchOutcome::NoData) {
        ScanOutput::Fail(e) => assert!(matches!(e.kind, ScanErrorKind::NoData)),
        _ => panic!("expected an error"),
    }
}

#[test]
fn configuration_errors() {
    assert!(matches!(ScanScheduler::new(&schema(2), None, 0), Err(ScanConfigError::InvalidConcurrency)));
    assert!(matches!(
        ScanScheduler::new(&schema(2), Some(vec![0, 5]), 1),
        Err(ScanConfigError::ColumnOutOfRange { index: 5 })
    ));
    assert_eq!(resolve_projection(None, 3), vec![0, 1, 2]);
    assert_eq!(resolve_projection(Some(vec![]), 2), vec![0, 1]);
    assert_eq!(resolve_projection(Some(vec![1]), 2), vec![1]);
}
