//! The decisions of a bounded concurrent scan. The driver asks the scheduler
//! what to do next, performs it (asks the catalog for partitions, or fetches
//! and decodes one), and hands the outcome back. The scheduler enumerates
//! partitions, keeps at most `limit` fetches in flight, and ends the stream
//! at the first failure.

use vstd::prelude::*;

use crate::block::{projection_in_range, resolve_projection, resolved_projection, DataBlock, DataSchema, ProjectionError};

verus! {

/// A unit of stored data: where it lies and how many bytes it has.
#[derive(Clone, Debug)]
pub struct Partition {
    pub location: String,
    pub length: u64,
}

/// Why a scan cannot be configured.
#[derive(Clone, Copy, Debug, PartialEq, Eq, Structural)]
pub enum ScanConfigError {
    /// The concurrency bound is zero.
    InvalidConcurrency,
    /// The projection names a column that the schema does not have.
    ColumnOutOfRange { index: usize },
}

/// What fetching and decoding one partition gave.
#[derive(Clone, Debug)]
pub enum FetchOutcome {
    /// The decoded block.
    Block(DataBlock),
    /// The read failed, with the storage's message.
    ReadFailed(String),
    /// The decoder produced no data.
    NoData,
}

/// What went wrong with a partition.
#[derive(Clone, Debug)]
pub enum ScanErrorKind {
    ReadFailed(String),
    NoData,
    /// The decoded block does not have the projected columns.
    BadBlock,
}

/// A failed partition, by location.
#[derive(Clone, Debug)]
pub struct ScanError {
    pub location: String,
    pub kind: ScanErrorKind,
}

/// What the driver is to do next.
#[derive(Clone, Copy, Debug, PartialEq, Eq, Structural)]
pub enum ScanAction {
    /// Ask the catalog for up to this many more partitions.
    RequestPartitions(usize),
    /// Fetch and decode the partition at this index.
    Fetch(usize),
    /// Wait for a fetch in flight to complete.
    Wait,
    /// The stream is over.
    Finished,
}

/// What a completed fetch puts on the output stream.
#[derive(Clone, Debug)]
pub enum ScanOutput {
    /// A block for the consumer.
    Emit(DataBlock),
    /// The terminating error element.
    Fail(ScanError),
    /// Nothing: the stream has already ended, or the fetch was not in flight.
    Discard,
}

pub struct ScanScheduler {
    /// The partitions enumerated so far, in order.
    pub parts: Vec<Partition>,
    /// The columns read from each partition.
    pub projection: Vec<usize>,
    /// The schema of every emitted block.
    pub output_schema: DataSchema,
    /// The most fetches in flight at once.
    pub limit: usize,
    /// The partitions before this index have been dispatched.
    pub next: usize,
    /// Indices dispatched and not yet completed.
    pub outstanding: Vec<usize>,
    /// The catalog has no more partitions.
    pub exhausted: bool,
    /// A fetch has failed and the stream has ended.
    pub failed: bool,
    /// The groups of partitions that the catalog gave, in order.
    pub groups: Ghost<Seq<Seq<Partition>>>,
}

impl ScanScheduler {
    pub open spec fn wf(&self) -> bool {
        &&& self.limit >= 1
        &&& self.next <= self.parts@.len()
        &&& self.outstanding@.len() <= self.limit
        &&& forall|i: int| 0 <= i < self.outstanding@.len() ==> #[trigger] self.outstanding@[i] < self.next
        &&& self.outstanding@.no_duplicates()
        &&& self.parts@ == self.groups@.flatten()
        &&& self.output_schema.fields@.len() == self.projection@.len()
    }

    /// Sets up a scan of a table with `schema`, reading the columns of
    /// `projection` (all of them when it is absent or empty), with at most
    /// `concurrency` fetches in flight.
    pub fn new(schema: &DataSchema, projection: Option<Vec<usize>>, concurrency: usize) -> (r: Result<ScanScheduler, ScanConfigError>)
        ensures
            r matches Ok(s) ==> {
                &&& s.wf()
                &&& s.limit == concurrency
                &&& s.projection@ == resolved_projection(
                    match projection {
                        Some(p) => Some(p@),
                        None => None,
                    },
                    schema.fields@.len(),
                )
                &&& s.output_schema.fields@ == s.projection@.map_values(|i: usize| schema.fields@[i as int])
                &&& s.parts@.len() == 0 && s.next == 0 && s.outstanding@.len() == 0
                &&& !s.exhausted && !s.failed
                &&& s.groups@.len() == 0
            },
            concurrency == 0 <==> r == Err::<ScanScheduler, ScanConfigError>(ScanConfigError::InvalidConcurrency),
            concurrency > 0 ==> (r is Ok <==> projection_in_range(
                resolved_projection(
                    match projection {
                        Some(p) => Some(p@),
                        None => None,
                    },
                    schema.fields@.len(),
                ),
                schema.fields@.len(),
            )),
            r matches Err(ScanConfigError::ColumnOutOfRange { index }) ==> index >= schema.fields@.len(),
    {
        if concurrency == 0 {
            return Err(ScanConfigError::InvalidConcurrency);
        }
        let projection = resolve_projection(projection, schema.num_fields());
        let output_schema = match schema.project(&projection) {
            Ok(s) => s,
            Err(ProjectionError::ColumnOutOfRange { index }) => {
                return Err(ScanConfigError::ColumnOutOfRange { index });
            },
        };
        let s = ScanScheduler {
            parts: Vec::new(),
            projection,
            output_schema,
            limit: concurrency,
            next: 0,
            outstanding: Vec::new(),
            exhausted: false,
            failed: false,
            groups: Ghost(Seq::empty()),
        };
        assert(s.groups@.flatten() =~= Seq::<Partition>::empty());
        Ok(s)
    }
}

impl ScanScheduler {
    /// Decides the next step. A fetch is started while fewer than `limit` are
    /// in flight and a partition is waiting; more partitions are asked for
    /// when all known ones are dispatched and the catalog is not exhausted;
    /// the stream ends after a failure, or when every partition has been
    /// dispatched and completed.
    pub fn next_action(&mut self) -> (r: ScanAction)
        requires
            old(self).wf(),
        ensures
            final(self).wf(),
            final(self).parts@ == old(self).parts@,
            final(self).groups@ == old(self).groups@,
            final(self).exhausted == old(self).exhausted,
            final(self).failed == old(self).failed,
            final(self).limit == old(self).limit,
            final(self).projection@ == old(self).projection@,
            final(self).output_schema == old(self).output_schema,
            old(self).failed ==> r == ScanAction::Finished,
            !old(self).failed && old(self).outstanding@.len() < old(self).limit && old(self).next < old(self).parts@.len()
                ==> r == ScanAction::Fetch(old(self).next),
            !old(self).failed && old(self).outstanding@.len() < old(self).limit && old(self).next == old(self).parts@.len()
                && !old(self).exhausted ==> r == ScanAction::RequestPartitions(old(self).limit),
            !old(self).failed && old(self).outstanding@.len() == old(self).limit ==> r == ScanAction::Wait,
            !old(self).failed && old(self).next == old(self).parts@.len() && old(self).exhausted ==> if old(
                self,
            ).outstanding@.len() == 0 {
                r == ScanAction::Finished
            } else {
                r == ScanAction::Wait
            },
            r matches ScanAction::Fetch(i) ==> final(self).next == i + 1 && final(self).outstanding@ == old(
                self,
            ).outstanding@.push(i),
            !(r is Fetch) ==> final(self).next == old(self).next && final(self).outstanding@ == old(self).outstanding@,
            r == ScanAction::Finished && !final(self).failed ==> final(self).parts@.take(final(self).next as int)
                == final(self).groups@.flatten() && final(self).outstanding@.len() == 0,
    {
        if self.failed {
            return ScanAction::Finished;
        }
        if self.outstanding.len() < self.limit {
            if self.next < self.parts.len() {
                let i = self.next;
                proof {
                    assert forall|k: int| 0 <= k < self.outstanding@.len() implies self.outstanding@[k] != i by {
                        assert(self.outstanding@[k] < self.next);
                    }
                }
                self.outstanding.push(i);
                self.next = i + 1;
                proof {
                    assert forall|k: int| 0 <= k < self.outstanding@.len() implies #[trigger] self.outstanding@[k] < self.next by {
                        if k < self.outstanding@.len() - 1 {
                            assert(self.outstanding@[k] == old(self).outstanding@[k]);
                        }
                    }
                    assert forall|a: int, b: int| 0 <= a < b < self.outstanding@.len() implies self.outstanding@[a]
                        != self.outstanding@[b] by {
                        if b == self.outstanding@.len() - 1 {
                            assert(old(self).outstanding@[a] < i);
                        } else {
                            assert(old(self).outstanding@[a] != old(self).outstanding@[b]);
                        }
                    }
                }
                return ScanAction::Fetch(i);
            }
            if !self.exhausted {
                return ScanAction::RequestPartitions(self.limit);
            }
        }
        if self.outstanding.len() > 0 {
            ScanAction::Wait
        } else {
            assert(self.parts@.take(self.next as int) =~= self.parts@);
            ScanAction::Finished
        }
    }

    /// Takes the catalog's answer. A non-empty group is appended; an empty
    /// group, or an error, ends the enumeration.
    pub fn on_partitions<E>(&mut self, reply: Result<Vec<Partition>, E>)
        requires
            old(self).wf(),
        ensures
            final(self).wf(),
            final(self).next == old(self).next,
            final(self).outstanding@ == old(self).outstanding@,
            final(self).failed == old(self).failed,
            final(self).limit == old(self).limit,
            final(self).projection@ == old(self).projection@,
            final(self).output_schema == old(self).output_schema,
            match reply {
                Ok(g) => if g@.len() > 0 && !old(self).exhausted {
                    &&& final(self).parts@ == old(self).parts@ + g@
                    &&& final(self).groups@ == old(self).groups@.push(g@)
                    &&& !final(self).exhausted
                } else {
                    &&& final(self).parts@ == old(self).parts@
                    &&& final(self).groups@ == old(self).groups@
                    &&& final(self).exhausted
                },
                Err(_) => {
                    &&& final(self).parts@ == old(self).parts@
                    &&& final(self).groups@ == old(self).groups@
                    &&& final(self).exhausted
                },
            },
    {
        match reply {
            Ok(mut g) => {
                if g.len() > 0 && !self.exhausted {
                    let ghost gv = g@;
                    proof {
                        self.groups@.lemma_flatten_push(gv);
                    }
                    self.parts.append(&mut g);
                    self.groups = Ghost(self.groups@.push(gv));
                } else {
                    self.exhausted = true;
                }
            },
            Err(_) => {
                self.exhausted = true;
            },
        }
    }

    /// Takes the outcome of the fetch of partition `index`. A block with the
    /// projected columns is emitted; any failure ends the stream with an
    /// error naming the partition's location; once the stream has ended, or
    /// when `index` is not in flight, the outcome is dropped.
    pub fn on_fetched(&mut self, index: usize, outcome: FetchOutcome) -> (r: ScanOutput)
        requires
            old(self).wf(),
        ensures
            final(self).wf(),
            final(self).parts@ == old(self).parts@,
            final(self).groups@ == old(self).groups@,
            final(self).next == old(self).next,
            final(self).exhausted == old(self).exhausted,
            final(self).limit == old(self).limit,
            final(self).projection@ == old(self).projection@,
            final(self).output_schema == old(self).output_schema,
            !old(self).outstanding@.contains(index) ==> r is Discard && *final(self) == *old(self),
            old(self).outstanding@.contains(index) ==> exists|k: int|
                0 <= k < old(self).outstanding@.len() && #[trigger] old(self).outstanding@[k] == index
                    && final(self).outstanding@ == old(self).outstanding@.remove(k),
            old(self).failed ==> r is Discard && final(self).failed,
            !old(self).failed && old(self).outstanding@.contains(index) ==> match outcome {
                FetchOutcome::Block(b) => if b.wf() && b.columns@.len() == old(self).projection@.len() {
                    r == ScanOutput::Emit(b) && !final(self).failed
                } else {
                    r matches ScanOutput::Fail(e) && e.location@ == old(self).parts@[index as int].location@
                        && e.kind is BadBlock && final(self).failed
                },
                FetchOutcome::ReadFailed(msg) => r matches ScanOutput::Fail(e) && e.location@ == old(
                    self,
                ).parts@[index as int].location@ && e.kind == ScanErrorKind::ReadFailed(msg) && final(self).failed,
                FetchOutcome::NoData => r matches ScanOutput::Fail(e) && e.location@ == old(
                    self,
                ).parts@[index as int].location@ && e.kind is NoData && final(self).failed,
            },
            r matches ScanOutput::Emit(b) ==> b.wf() && b.columns@.len() == final(self).output_schema.fields@.len(),
    {
        let mut k: usize = 0;
        let mut found = false;
        while k < self.outstanding.len() && !found
            invariant
                *self == *old(self),
                0 <= k <= self.outstanding@.len(),
                found ==> k < self.outstanding@.len() && self.outstanding@[k as int] == index,
                forall|j: int| 0 <= j < k ==> self.outstanding@[j] != index,
            decreases self.outstanding@.len() - k + if found { 0int } else { 1int },
        {
            if self.outstanding[k] == index {
                found = true;
            } else {
                k = k + 1;
            }
        }
        if !found {
            return ScanOutput::Discard;
        }
        assert(self.outstanding@.contains(index));
        let ghost before = self.outstanding@;
        self.outstanding.remove(k);
        proof {
            assert forall|j: int| 0 <= j < self.outstanding@.len() implies #[trigger] self.outstanding@[j] < self.next by {
                if j < k {
                    assert(self.outstanding@[j] == before[j]);
                } else {
                    assert(self.outstanding@[j] == before[j + 1]);
                }
            }
            assert forall|a: int, b: int| 0 <= a < b < self.outstanding@.len() implies self.outstanding@[a]
                != self.outstanding@[b] by {
                let a0 = if a < k { a } else { a + 1 };
                let b0 = if b < k { b } else { b + 1 };
                assert(self.outstanding@[a] == before[a0]);
                assert(self.outstanding@[b] == before[b0]);
            }
        }
        if self.failed {
            return ScanOutput::Discard;
        }
        assert(before[k as int] < self.next);
        let location = self.parts[index].location.clone();
        match outcome {
            FetchOutcome::Block(b) => {
                if b.columns.len() == self.projection.len() && columns_match_rows(&b) {
                    ScanOutput::Emit(b)
                } else {
                    self.failed = true;
                    ScanOutput::Fail(ScanError { location, kind: ScanErrorKind::BadBlock })
                }
            },
            FetchOutcome::ReadFailed(msg) => {
                self.failed = true;
                ScanOutput::Fail(ScanError { location, kind: ScanErrorKind::ReadFailed(msg) })
            },
            FetchOutcome::NoData => {
                self.failed = true;
                ScanOutput::Fail(ScanError { location, kind: ScanErrorKind::NoData })
            },
        }
    }
}

/// Whether every column of a block has one value per row.
pub fn columns_match_rows(b: &DataBlock) -> (r: bool)
    ensures
        r == b.wf(),
{
    let mut c: usize = 0;
    while c < b.columns.len()
        invariant
            0 <= c <= b.columns@.len(),
            forall|k: int| 0 <= k < c ==> (#[trigger] b.columns@[k])@.len() == b.num_rows,
        decreases b.columns@.len() - c,
    {
        if b.columns[c].len() != b.num_rows {
            return false;
        }
        c = c + 1;
    }
    true
}

} // verus!
