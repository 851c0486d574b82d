//! Schemas, column-major data blocks and projections.

use vstd::prelude::*;

verus! {

/// The type of a column.
#[derive(Clone, Copy, Debug, PartialEq, Eq, Structural)]
pub enum DataType {
    UInt64,
    Struct,
}

/// A named, typed column of a schema.
#[derive(Clone, Debug)]
pub struct DataField {
    pub name: String,
    pub data_type: DataType,
}

/// An ordered list of fields.
#[derive(Clone, Debug)]
pub struct DataSchema {
    pub fields: Vec<DataField>,
}

/// A column-major batch of rows: one vector of values per column.
#[derive(Clone, Debug)]
pub struct DataBlock {
    pub columns: Vec<Vec<u64>>,
    pub num_rows: usize,
}

impl DataField {
    pub fn duplicate(&self) -> (r: DataField)
        ensures
            r == *self,
    {
        DataField { name: self.name.clone(), data_type: self.data_type }
    }
}

impl DataBlock {
    /// Every column holds one value per row.
    pub open spec fn wf(&self) -> bool {
        forall|c: int| 0 <= c < self.columns@.len() ==> (#[trigger] self.columns@[c])@.len() == self.num_rows
    }

    /// Row `r` as the sequence of its values, column by column.
    pub open spec fn row(&self, r: int) -> Seq<u64> {
        Seq::new(self.columns@.len(), |c: int| self.columns@[c]@[r])
    }

    /// The rows of the block, in order.
    pub open spec fn rows(&self) -> Seq<Seq<u64>> {
        Seq::new(self.num_rows as nat, |r: int| self.row(r))
    }

    pub fn num_columns(&self) -> (r: usize)
        ensures
            r == self.columns@.len(),
    {
        self.columns.len()
    }

    pub fn num_rows(&self) -> (r: usize)
        ensures
            r == self.num_rows,
    {
        self.num_rows
    }
}

/// The projection that is used: the one given, or every field when none or
/// an empty one is given.
pub open spec fn resolved_projection(projection: Option<Seq<usize>>, n_fields: nat) -> Seq<usize> {
    match projection {
        Some(p) if p.len() > 0 => p,
        _ => Seq::new(n_fields, |i: int| i as usize),
    }
}

/// The projection to read with: `projection` when it names fields, else all
/// `n_fields` fields in order.
pub fn resolve_projection(projection: Option<Vec<usize>>, n_fields: usize) -> (r: Vec<usize>)
    ensures
        r@ == resolved_projection(
            match projection {
                Some(p) => Some(p@),
                None => None,
            },
            n_fields as nat,
        ),
{
    match projection {
        Some(p) if p.len() > 0 => p,
        _ => {
            let mut all: Vec<usize> = Vec::new();
            let mut i: usize = 0;
            while i < n_fields
                invariant
                    0 <= i <= n_fields,
                    all@ == Seq::new(i as nat, |k: int| k as usize),
                decreases n_fields - i,
            {
                all.push(i);
                i = i + 1;
                assert(all@ =~= Seq::new(i as nat, |k: int| k as usize));
            }
            all
        },
    }
}

/// Whether every index of a projection names a field.
pub open spec fn projection_in_range(projection: Seq<usize>, n_fields: nat) -> bool {
    forall|i: int| 0 <= i < projection.len() ==> #[trigger] projection[i] < n_fields
}

/// Why a projection cannot be applied.
#[derive(Clone, Copy, Debug, PartialEq, Eq, Structural)]
pub enum ProjectionError {
    ColumnOutOfRange { index: usize },
}

impl DataSchema {
    pub fn num_fields(&self) -> (r: usize)
        ensures
            r == self.fields@.len(),
    {
        self.fields.len()
    }

    /// The schema of the projected fields, in projection order.
    pub fn project(&self, projection: &Vec<usize>) -> (r: Result<DataSchema, ProjectionError>)
        ensures
            r is Ok <==> projection_in_range(projection@, self.fields@.len()),
            r matches Ok(s) ==> s.fields@ == projection@.map_values(|i: usize| self.fields@[i as int]),
            r matches Err(ProjectionError::ColumnOutOfRange { index }) ==> index >= self.fields@.len()
                && projection@.contains(index),
    {
        let mut fields: Vec<DataField> = Vec::new();
        let mut i: usize = 0;
        while i < projection.len()
            invariant
                0 <= i <= projection@.len(),
                projection_in_range(projection@.take(i as int), self.fields@.len()),
                fields@ == projection@.take(i as int).map_values(|k: usize| self.fields@[k as int]),
            decreases projection@.len() - i,
        {
            let k = projection[i];
            if k >= self.fields.len() {
                assert(projection@[i as int] == k);
                return Err(ProjectionError::ColumnOutOfRange { index: k });
            }
            fields.push(self.fields[k].duplicate());
            i = i + 1;
            assert(projection@.take(i as int) =~= projection@.take(i - 1).push(k));
            assert(fields@ =~= projection@.take(i as int).map_values(|k: usize| self.fields@[k as int]));
            assert forall|j: int| 0 <= j < i implies #[trigger] projection@.take(i as int)[j] < self.fields@.len() by {
                if j < i - 1 {
                    assert(projection@.take(i - 1)[j] == projection@.take(i as int)[j]);
                }
            }
        }
        assert(projection@.take(projection@.len() as int) =~= projection@);
        Ok(DataSchema { fields })
    }
}

impl DataBlock {
    /// The block restricted to the projected columns, in projection order.
    pub fn project(&self, projection: &Vec<usize>) -> (r: Result<DataBlock, ProjectionError>)
        requires
            self.wf(),
        ensures
            r is Ok <==> projection_in_range(projection@, self.columns@.len()),
            r matches Ok(b) ==> {
                &&& b.wf()
                &&& b.num_rows == self.num_rows
                &&& b.columns@.len() == projection@.len()
                &&& forall|i: int| 0 <= i < projection@.len() ==> (#[trigger] b.columns@[i])@ == self.columns@[projection@[i] as int]@
            },
            r matches Err(ProjectionError::ColumnOutOfRange { index }) ==> index >= self.columns@.len()
                && projection@.contains(index),
    {
        let mut columns: Vec<Vec<u64>> = Vec::new();
        let mut i: usize = 0;
        while i < projection.len()
            invariant
                0 <= i <= projection@.len(),
                self.wf(),
                projection_in_range(projection@.take(i as int), self.columns@.len()),
                columns@.len() == i,
                forall|j: int| 0 <= j < i ==> (#[trigger] columns@[j])@ == self.columns@[projection@[j] as int]@,
            decreases projection@.len() - i,
        {
            let k = projection[i];
            if k >= self.columns.len() {
                assert(projection@[i as int] == k);
                return Err(ProjectionError::ColumnOutOfRange { index: k });
            }
            columns.push(self.columns[k].clone());
            i = i + 1;
            assert forall|j: int| 0 <= j < i implies #[trigger] projection@.take(i as int)[j] < self.columns@.len() by {
                if j < i - 1 {
                    assert(projection@.take(i - 1)[j] == projection@.take(i as int)[j]);
                }
            }
        }
        assert(projection@.take(projection@.len() as int) =~= projection@);
        Ok(DataBlock { columns, num_rows: self.num_rows })
    }
}

} // verus!
