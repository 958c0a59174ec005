//! Unnesting a list column: one row per list element.
use vstd::prelude::*;
use crate::select::{find_column, index_of};
use crate::table::{
    Cell, DataType, ElemType, Field, Scalar, Table, Value, copy_scalar, copy_value, names_of, row_cells,
    table_cells,
};
use crate::verbs::schema_of;

verus! {

/// Why a column cannot be unnested.
#[derive(Clone, Copy, Debug, PartialEq, Eq, Structural)]
pub enum UnnestError {
    UnknownColumn,
    NotAList,
}

/// The scalar type of a list column's elements, as a column type.
pub open spec fn elem_column_type(e: ElemType) -> DataType {
    match e {
        ElemType::Int64 => DataType::Int64,
        ElemType::Float64 => DataType::Float64,
        ElemType::Utf8 => DataType::Utf8,
    }
}

/// The cells one list cell turns into: one per element (none for an empty
/// list), or a single null for a null cell.
pub open spec fn unnest_cell(c: Cell) -> Seq<Cell> {
    match c {
        Cell::Many(items) => items.map_values(|x: Scalar| Cell::One(x)),
        Cell::One(_) => seq![Cell::One(Scalar::Null)],
    }
}

/// The rows one row turns into: the other cells repeated unchanged.
pub open spec fn unnest_row(cells: Seq<Cell>, j: int) -> Seq<Seq<Cell>> {
    unnest_cell(cells[j]).map_values(|c: Cell| cells.update(j, c))
}

/// The rows the first `n` rows turn into, in order.
pub open spec fn unnest_rows(rows: Seq<Vec<Value>>, j: int, n: nat) -> Seq<Seq<Cell>>
    decreases n,
{
    if n == 0 {
        seq![]
    } else {
        unnest_rows(rows, j, (n - 1) as nat) + unnest_row(row_cells(rows[n - 1]), j)
    }
}

/// `r` is `t` with its list column `j` unnested.
pub open spec fn unnested(t: Table, j: int, e: ElemType, r: Table) -> bool {
    &&& r.wf()
    &&& schema_of(r.fields@) == schema_of(t.fields@).update(j, (t.fields@[j].name@, elem_column_type(e)))
    &&& table_cells(r) == unnest_rows(t.rows@, j, t.num_rows())
}

fn elem_type_column(e: ElemType) -> (r: DataType)
    ensures
        r == elem_column_type(e),
{
    match e {
        ElemType::Int64 => DataType::Int64,
        ElemType::Float64 => DataType::Float64,
        ElemType::Utf8 => DataType::Utf8,
    }
}

/// A copy of `row` whose cell `j` is `v`.
fn row_with(row: &Vec<Value>, j: usize, v: Value) -> (r: Vec<Value>)
    requires
        j < row@.len(),
    ensures
        r@.len() == row@.len(),
        row_cells(r) == row_cells(*row).update(j as int, v.model()),
{
    let n = row.len();
    let ghost vm = v.model();
    let mut out: Vec<Value> = Vec::new();
    let mut k: usize = 0;
    while k < j
        invariant
            k <= j < row@.len(),
            out@.len() == k,
            forall|b: int| 0 <= b < k ==> (#[trigger] out@[b]).model() == row@[b].model(),
        decreases j - k,
    {
        out.push(copy_value(&row[k]));
        k = k + 1;
    }
    out.push(v);
    k = k + 1;
    while k < row.len()
        invariant
            j < k <= row@.len(),
            out@.len() == k,
            out@[j as int].model() == vm,
            forall|b: int| 0 <= b < k && b != j ==> (#[trigger] out@[b]).model() == row@[b].model(),
        decreases row@.len() - k,
    {
        out.push(copy_value(&row[k]));
        k = k + 1;
    }
    assert(row_cells(out) =~= row_cells(*row).update(j as int, vm));
    out
}

/// Appends the rows that one row turns into.
fn push_unnested_row(out: &mut Vec<Vec<Value>>, row: &Vec<Value>, j: usize)
    requires
        j < row@.len(),
    ensures
        final(out)@.map_values(|r: Vec<Value>| row_cells(r)) == old(out)@.map_values(
            |r: Vec<Value>| row_cells(r),
        ) + unnest_row(row_cells(*row), j as int),
        forall|a: int| 0 <= a < old(out)@.len() ==> #[trigger] final(out)@[a] == old(out)@[a],
        forall|a: int|
            old(out)@.len() <= a < final(out)@.len() ==> (#[trigger] final(out)@[a])@.len() == row@.len(),
{
    let ghost cells = row_cells(*row);
    let ghost start = old(out)@.map_values(|r: Vec<Value>| row_cells(r));
    let ghost old_len = old(out)@.len();
    let ghost old_out = old(out)@;
    match &row[j] {
        Value::Many(items) => {
            let ghost expect = unnest_row(cells, j as int);
            assert(cells[j as int] == Cell::Many(items@));
            let mut k: usize = 0;
            while k < items.len()
                invariant
                    j < row@.len(),
                    cells == row_cells(*row),
                    row@[j as int].model() == Cell::Many(items@),
                    expect == unnest_row(cells, j as int),
                    expect.len() == items@.len(),
                    k <= items@.len(),
                    out@.len() == old_len + k,
                    forall|a: int| 0 <= a < old_len ==> #[trigger] out@[a] == old_out[a],
                    forall|a: int| old_len <= a < out@.len() ==> (#[trigger] out@[a])@.len() == row@.len(),
                    out@.map_values(|r: Vec<Value>| row_cells(r)) == start + expect.subrange(0, k as int),
                decreases items@.len() - k,
            {
                let ghost before = out@;
                let r = row_with(row, j, Value::One(copy_scalar(&items[k])));
                assert(expect[k as int] == cells.update(j as int, Cell::One(items@[k as int])));
                out.push(r);
                assert(out@.map_values(|r: Vec<Value>| row_cells(r)) =~= before.map_values(
                    |r: Vec<Value>| row_cells(r),
                ).push(expect[k as int]));
                k = k + 1;
                assert(out@.map_values(|r: Vec<Value>| row_cells(r)) =~= start + expect.subrange(0, k as int));
            }
            assert(expect.subrange(0, k as int) =~= expect);
        },
        Value::One(_) => {
            let r = row_with(row, j, Value::One(Scalar::Null));
            out.push(r);
            assert(out@.map_values(|r: Vec<Value>| row_cells(r)) =~= start + unnest_row(cells, j as int));
        },
    }
}

/// Unnests the list column `name`: each row becomes one row per element of
/// its list (none for an empty list), or one row with a null there when the
/// cell is null; the other cells are repeated unchanged.
pub fn unnest(t: &Table, name: &str) -> (r: Result<Table, UnnestError>)
    requires
        t.wf(),
    ensures
        index_of(names_of(t.fields@), name@) < 0 <==> r == Err::<Table, UnnestError>(UnnestError::UnknownColumn),
        r == Err::<Table, UnnestError>(UnnestError::NotAList) <==> {
            let j = index_of(names_of(t.fields@), name@);
            j >= 0 && !(t.fields@[j].dtype is List)
        },
        r matches Ok(out) ==> {
            let j = index_of(names_of(t.fields@), name@);
            &&& j >= 0
            &&& t.fields@[j].dtype is List
            &&& unnested(*t, j, t.fields@[j].dtype->List_0, out)
        },
{
    let j = match find_column(&t.fields, name) {
        Some(j) => j,
        None => return Err(UnnestError::UnknownColumn),
    };
    let e = match t.fields[j].dtype {
        DataType::List(e) => e,
        _ => return Err(UnnestError::NotAList),
    };
    let mut fields: Vec<Field> = Vec::new();
    let mut k: usize = 0;
    while k < t.fields.len()
        invariant
            k <= t.fields@.len(),
            j < t.fields@.len(),
            fields@.len() == k,
            forall|b: int|
                0 <= b < k ==> (#[trigger] fields@[b]).name@ == t.fields@[b].name@ && fields@[b].dtype == if b
                    == j {
                    elem_column_type(e)
                } else {
                    t.fields@[b].dtype
                },
        decreases t.fields@.len() - k,
    {
        let dtype = if k == j {
            elem_type_column(e)
        } else {
            t.fields[k].dtype
        };
        fields.push(Field { name: t.fields[k].name.clone(), dtype });
        k = k + 1;
    }
    assert(schema_of(fields@) =~= schema_of(t.fields@).update(j as int, (t.fields@[j as int].name@, elem_column_type(e))));
    let mut rows: Vec<Vec<Value>> = Vec::new();
    let mut i: usize = 0;
    while i < t.rows.len()
        invariant
            t.wf(),
            j < t.fields@.len(),
            i <= t.rows@.len(),
            forall|a: int| 0 <= a < rows@.len() ==> (#[trigger] rows@[a])@.len() == t.fields@.len(),
            rows@.map_values(|r: Vec<Value>| row_cells(r)) == unnest_rows(t.rows@, j as int, i as nat),
        decreases t.rows@.len() - i,
    {
        push_unnested_row(&mut rows, &t.rows[i], j);
        i = i + 1;
    }
    let out = Table { fields, rows };
    assert(out.wf());
    Ok(out)
}

/// A row whose list holds `L` elements becomes exactly `L` rows, the `k`-th
/// holding the `k`-th element and the other cells unchanged; a row whose
/// cell there is null becomes one row with a null there.
pub proof fn lemma_unnest_row(cells: Seq<Cell>, j: int, items: Seq<Scalar>)
    requires
        0 <= j < cells.len(),
    ensures
        cells[j] == Cell::Many(items) ==> {
            &&& unnest_row(cells, j).len() == items.len()
            &&& forall|k: int|
                0 <= k < items.len() ==> (#[trigger] unnest_row(cells, j)[k])[j] == Cell::One(items[k])
            &&& forall|k: int, c: int|
                0 <= k < items.len() && 0 <= c < cells.len() && c != j ==> #[trigger] unnest_row(cells, j)[k][c]
                    == cells[c]
        },
        cells[j] is One ==> {
            &&& unnest_row(cells, j).len() == 1
            &&& unnest_row(cells, j)[0] == cells.update(j, Cell::One(Scalar::Null))
        },
{
}

} // verus!
