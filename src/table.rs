//! Columnar data: scalar and list cells, typed fields and row-major tables.
use vstd::prelude::*;

verus! {

/// The type of one element of a list column.
#[derive(Clone, Copy, Debug, PartialEq, Eq, Structural)]
pub enum ElemType {
    Int64,
    Float64,
    Utf8,
}

/// The type of a column.
#[derive(Clone, Copy, Debug, PartialEq, Eq, Structural)]
pub enum DataType {
    Int64,
    Float64,
    Utf8,
    List(ElemType),
}

/// A scalar cell. A float is held exactly as its decimal digits:
/// `Dec(m, s)` stands for `m / 10^s`.
#[derive(Debug)]
pub enum Scalar {
    Null,
    Int(i64),
    Dec(i64, u8),
    Text(String),
}

/// A cell of a table: a scalar, or a list of scalars.
#[derive(Debug)]
pub enum Value {
    One(Scalar),
    Many(Vec<Scalar>),
}

/// What a cell holds, as a mathematical value.
pub enum Cell {
    One(Scalar),
    Many(Seq<Scalar>),
}

impl Value {
    pub open spec fn model(&self) -> Cell {
        match self {
            Value::One(s) => Cell::One(*s),
            Value::Many(v) => Cell::Many(v@),
        }
    }
}

/// The cells of a row.
pub open spec fn row_cells(row: Vec<Value>) -> Seq<Cell> {
    row@.map_values(|v: Value| v.model())
}

/// The cells of a table, row by row.
pub open spec fn table_cells(t: Table) -> Seq<Seq<Cell>> {
    t.rows@.map_values(|r: Vec<Value>| row_cells(r))
}

/// A named, typed column.
#[derive(Debug)]
pub struct Field {
    pub name: String,
    pub dtype: DataType,
}

/// A table held row by row.
#[derive(Debug)]
pub struct Table {
    pub fields: Vec<Field>,
    pub rows: Vec<Vec<Value>>,
}

/// The column names of a schema.
pub open spec fn names_of(fields: Seq<Field>) -> Seq<Seq<char>> {
    fields.map_values(|f: Field| f.name@)
}

/// The column types of a schema.
pub open spec fn types_of(fields: Seq<Field>) -> Seq<DataType> {
    fields.map_values(|f: Field| f.dtype)
}

/// Two schemas agree when their names and types agree column by column.
pub open spec fn same_schema(a: Seq<Field>, b: Seq<Field>) -> bool {
    names_of(a) == names_of(b) && types_of(a) == types_of(b)
}

impl Table {
    /// Every row has one cell per column.
    pub open spec fn wf(&self) -> bool {
        forall|i: int| 0 <= i < self.rows@.len() ==> #[trigger] self.rows@[i]@.len() == self.fields@.len()
    }

    pub open spec fn num_rows(&self) -> nat {
        self.rows@.len()
    }

    pub open spec fn num_cols(&self) -> nat {
        self.fields@.len()
    }

    /// The cell at row `i`, column `j`.
    pub open spec fn cell(&self, i: int, j: int) -> Cell {
        self.rows@[i]@[j].model()
    }
}

/// Copies a scalar exactly.
pub fn copy_scalar(s: &Scalar) -> (r: Scalar)
    ensures
        r == *s,
{
    match s {
        Scalar::Null => Scalar::Null,
        Scalar::Int(i) => Scalar::Int(*i),
        Scalar::Dec(m, k) => Scalar::Dec(*m, *k),
        Scalar::Text(t) => Scalar::Text(t.clone()),
    }
}

/// Copies a cell; the copy holds the same model.
pub fn copy_value(v: &Value) -> (r: Value)
    ensures
        r.model() == v.model(),
{
    match v {
        Value::One(s) => Value::One(copy_scalar(s)),
        Value::Many(items) => {
            let mut out: Vec<Scalar> = Vec::new();
            let mut k: usize = 0;
            while k < items.len()
                invariant
                    k <= items@.len(),
                    out@ == items@.subrange(0, k as int),
                decreases items@.len() - k,
            {
                out.push(copy_scalar(&items[k]));
                k = k + 1;
                assert(out@ =~= items@.subrange(0, k as int));
            }
            assert(out@ =~= items@);
            Value::Many(out)
        },
    }
}

/// Copies a field.
pub fn copy_field(f: &Field) -> (r: Field)
    ensures
        r.name@ == f.name@,
        r.dtype == f.dtype,
{
    Field { name: f.name.clone(), dtype: f.dtype }
}

/// Copies a schema column by column.
pub fn copy_fields(fields: &Vec<Field>) -> (r: Vec<Field>)
    ensures
        same_schema(r@, fields@),
        r@.len() == fields@.len(),
        forall|j: int|
            0 <= j < fields@.len() ==> (#[trigger] r@[j]).name@ == fields@[j].name@ && r@[j].dtype == fields@[j].dtype,
{
    let mut out: Vec<Field> = Vec::new();
    let mut k: usize = 0;
    while k < fields.len()
        invariant
            k <= fields@.len(),
            out@.len() == k,
            forall|j: int| 0 <= j < k ==> (#[trigger] out@[j]).name@ == fields@[j].name@ && out@[j].dtype == fields@[j].dtype,
        decreases fields@.len() - k,
    {
        out.push(copy_field(&fields[k]));
        k = k + 1;
    }
    assert(names_of(out@) =~= names_of(fields@));
    assert(types_of(out@) =~= types_of(fields@));
    out
}

/// Copies a row cell by cell.
pub fn copy_row(row: &Vec<Value>) -> (r: Vec<Value>)
    ensures
        r@.len() == row@.len(),
        forall|j: int| 0 <= j < row@.len() ==> (#[trigger] r@[j]).model() == row@[j].model(),
{
    let mut out: Vec<Value> = Vec::new();
    let mut k: usize = 0;
    while k < row.len()
        invariant
            k <= row@.len(),
            out@.len() == k,
            forall|j: int| 0 <= j < k ==> (#[trigger] out@[j]).model() == row@[j].model(),
        decreases row@.len() - k,
    {
        out.push(copy_value(&row[k]));
        k = k + 1;
    }
    out
}

} // verus!
