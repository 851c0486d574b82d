use fusequery::aggregate::{
    add_wrapping, Accumulator, AggregateError, AggregateExpr, AggregateFunction,
    AggregatorPartialTransform,
};
use fusequery::block::DataBlock;
use fusequery::pipeline::Pipeline;

fn number_blocks(total: u64, block_size: u64) -> Vec<DataBlock> {
    let mut blocks = Vec::new();
    let mut start = 0u64;
    while start < total {
        let end = std::cmp::min(start + block_size, total);
        let column: Vec<u64> = (start..end).collect();
        blocks.push(DataBlock { num_rows: column.len(), columns: vec![column] });
        start = end;
    }
    blocks
}

#[test]
fn test_transform_partial_aggregator() {
    // sum(number)+2, avg(number)
    let aggr_exprs = vec![
        AggregateExpr { function: AggregateFunction::Sum, column: 0, deferred_add: Some(2) },
        AggregateExpr { function: AggregateFunction::Avg, column: 0, deferred_add: None },
    ];

    let mut pipeline = Pipeline::create();
    pipeline.add_source().unwrap();
    pipeline.add_simple_transform().unwrap();
    pipeline.merge_processor().unwrap();
    pipeline.execute().unwrap();
    assert_eq!(pipeline.last_pipe_size(), 1);

    let mut transform = AggregatorPartialTransform::try_create(1, aggr_exprs, vec![]).unwrap();
    for block in number_blocks(200000, 10000).iter() {
        transform.consume(block).unwrap();
    }
    let result = transform.finish();
    assert_eq!(result.len(), 1);
    let block = &result[0];
    assert_eq!(block.accs.len(), 2);
    assert_eq!(block.accs[0].sum, 19999900000);
    assert_eq!(block.accs[1], Accumulator { sum: 19999900000, count: 200000 });
}

#[test]
fn grouped_sum_by_key() {
    // keys A, A, B (as 1, 1, 2) with x = 1, 2, 5
    let block = DataBlock { num_rows: 3, columns: vec![vec![1, 1, 2], vec![1, 2, 5]] };
    let sum = AggregateExpr { function: AggregateFunction::Sum, column: 1, deferred_add: None };
    let mut t = AggregatorPartialTransform::try_create(2, vec![sum], vec![0]).unwrap();
    t.consume(&block).unwrap();
    let groups = t.finish();
    assert_eq!(groups.len(), 2);
    assert_eq!(groups[0].key, vec![1]);
    assert_eq!(groups[0].accs[0].sum, 3);
    assert_eq!(groups[1].key, vec![2]);
    assert_eq!(groups[1].accs[0].sum, 5);
}

#[test]
fn column_absent_from_schema_is_refused() {
    let sum = AggregateExpr { function: AggregateFunction::Sum, column: 3, deferred_add: None };
    let r = AggregatorPartialTransform::try_create(2, vec![sum], vec![]);
    assert!(matches!(r, Err(AggregateError::ColumnNotFound { index: 3 })));
    let sum = AggregateExpr { function: AggregateFunction::Sum, column: 0, deferred_add: None };
    let r = AggregatorPartialTransform::try_create(2, vec![sum], vec![2]);
    assert!(matches!(r, Err(AggregateError::ColumnNotFound { index: 2 })));
}

#[test]
fn mismatched_block_is_refused() {
    let sum = AggregateExpr { function: AggregateFunction::Sum, column: 0, deferred_add: None };
    let mut t = AggregatorPartialTransform::try_create(2, vec![sum], vec![]).unwrap();
    let narrow = DataBlock { num_rows: 1, columns: vec![vec![1]] };
    assert_eq!(t.consume(&narrow), Err(AggregateError::SchemaMismatch));
    let ragged = DataBlock { num_rows: 2, columns: vec![vec![1, 2], vec![3]] };
    assert_eq!(t.consume(&ragged), Err(AggregateError::SchemaMismatch));
    assert_eq!(t.finish().len(), 0);
}

#[test]
fn empty_input_gives_no_groups() {
    let sum = AggregateExpr { function: AggregateFunction::Sum, column: 0, deferred_add: None };
    let t = AggregatorPartialTransform::try_create(1, vec![sum], vec![]).unwrap();
    assert_eq!(t.finish().len(), 0);
}

#[test]
fn sum_wraps_around() {
    assert_eq!(add_wrapping(u64::MAX, 2), 1);
    let block = DataBlock { num_rows: 2, columns: vec![vec![u64::MAX, 3]] };
    let sum = AggregateExpr { function: AggregateFunction::Sum, column: 0, deferred_add: None };
    let mut t = AggregatorPartialTransform::try_create(1, vec![sum], vec![]).unwrap();
    t.consume(&block).unwrap();
    let groups = t.finish();
    assert_eq!(groups[0].accs[0], Accumulator { sum: 2, count: 2 });
}

#[test]
fn combining_partials_in_any_order_agrees() {
    let a = Accumulator { sum: 10, count: 2 };
    let b = Accumulator { sum: u64::MAX, count: 1 };
    let c = Accumulator { sum: 7, count: 4 };
    assert_eq!(a.combine(&b), b.combine(&a));
    assert_eq!(a.combine(&b).combine(&c), a.combine(&b.combine(&c)));
    assert_eq!(a.combine(&b).combine(&c), Accumulator { sum: 16, count: 7 });
    assert_eq!(a.update(5), Accumulator { sum: 15, count: 3 });
}

#[test]
fn shards_combine_to_the_whole() {
    let sum = AggregateExpr { function: AggregateFunction::Avg, column: 0, deferred_add: None };
    let blocks = number_blocks(1000, 100);
    let mut whole = AggregatorPartialTransform::try_create(1, vec![sum], vec![]).unwrap();
    for b in blocks.iter() {
        whole.consume(b).unwrap();
    }
    let mut left = AggregatorPartialTransform::try_create(1, vec![sum], vec![]).unwrap();
    let mut right = AggregatorPartialTransform::try_create(1, vec![sum], vec![]).unwrap();
    for (i, b) in blocks.iter().enumerate().rev() {
        if i % 2 == 0 {
            left.consume(b).unwrap();
        } else {
            right.consume(b).unwrap();
        }
    }
    let whole = whole.finish();
    let l = left.finish();
    let r = right.finish();
    assert_eq!(l[0].accs[0].combine(&r[0].accs[0]), whole[0].accs[0]);
    assert_eq!(whole[0].accs[0], Accumulator { sum: 499500, count: 1000 });
}
