//! The evaluation state threaded through a chain, and the evaluators of the
//! plan-building verbs.
use vstd::prelude::*;
use crate::select::{index_of, projected, select, select_columns};
use crate::table::{DataType, Field, Scalar, Table, Value, copy_fields, copy_row, names_of, table_cells};
use crate::text::{min, table_text};
use crate::typing::{check_verb, lemma_schema_names};
use crate::unnest::{unnest, unnested};
use crate::verbs::{
    DEFAULT_HEAD_ROWS, Schema, Verb, VerbError, name_of, next_grouping, next_schema, schema_of, verb_error,
    verb_name,
};

pub mod head;
pub mod io;
pub mod show;

verus! {

/// The state of one chain's evaluation: the current plan, whether a
/// `group_by` awaits its `summarize`, and what the sinks have rendered.
pub struct Context {
    pub plan: Option<Table>,
    pub grouping: bool,
    pub output: Vec<String>,
}

/// Two tables with the same schema and the same cells.
pub open spec fn same_table(a: Table, b: Table) -> bool {
    schema_of(a.fields@) == schema_of(b.fields@) && table_cells(a) == table_cells(b)
}

/// `r` is `t` cut to its first `n` rows.
pub open spec fn limited(t: Table, n: nat, r: Table) -> bool {
    r.fields == t.fields && r.rows@ == t.rows@.subrange(0, min(t.num_rows(), n) as int)
}

/// `r` holds one row: the number of rows of `t`, in a column called `name`.
pub open spec fn summarized(t: Table, name: Seq<char>, r: Table) -> bool {
    &&& r.wf()
    &&& schema_of(r.fields@) == seq![(name, DataType::Int64)]
    &&& r.num_rows() == 1
    &&& r.cell(0, 0) == crate::table::Cell::One(Scalar::Int(t.num_rows() as i64))
}

/// `new` is `old` with one more entry, whose text is `text`.
pub open spec fn appended(old: Seq<String>, new: Seq<String>, text: Seq<char>) -> bool {
    new.len() == old.len() + 1 && new.subrange(0, old.len() as int) == old && new.last()@ == text
}

pub open spec fn head_rows(limit: Option<usize>) -> nat {
    match limit {
        Some(n) => n as nat,
        None => DEFAULT_HEAD_ROWS as nat,
    }
}

impl Context {
    pub open spec fn wf(&self) -> bool {
        self.plan matches Some(t) ==> t.wf()
    }

    /// The schema of the current plan.
    pub open spec fn schema(&self) -> Option<Schema> {
        match self.plan {
            Some(t) => Some(schema_of(t.fields@)),
            None => None,
        }
    }

    /// A fresh state: no plan, not grouping, nothing rendered.
    pub fn new() -> (r: Context)
        ensures
            r.plan is None,
            !r.grouping,
            r.output@.len() == 0,
    {
        Context { plan: None, grouping: false, output: Vec::new() }
    }

    /// Takes the current plan, leaving none.
    pub fn take_plan(&mut self) -> (r: Option<Table>)
        ensures
            r == old(self).plan,
            final(self).plan is None,
            final(self).grouping == old(self).grouping,
            final(self).output == old(self).output,
    {
        self.plan.take()
    }

    pub fn is_grouping(&self) -> (r: bool)
        ensures
            r == self.grouping,
    {
        self.grouping
    }
}

/// What a verb that may run does to the state.
pub open spec fn effect(v: Verb, last: bool, old: Context, new: Context) -> bool {
    &&& new.wf()
    &&& new.schema() == next_schema(v, old.schema(), last)
    &&& new.grouping == next_grouping(v, old.grouping)
    &&& match v {
        Verb::Source(t) => new.output == old.output && same_table(new.plan.unwrap(), t),
        Verb::Select(items) => {
            let t = old.plan.unwrap();
            new.output == old.output && projected(
                t,
                select_columns(names_of(t.fields@), items@).unwrap(),
                new.plan.unwrap(),
            )
        },
        Verb::Unnest(n) => {
            let t = old.plan.unwrap();
            let j = index_of(names_of(t.fields@), n@);
            new.output == old.output && unnested(t, j, t.fields@[j].dtype->List_0, new.plan.unwrap())
        },
        Verb::GroupBy(_) => new.output == old.output && new.plan == old.plan,
        Verb::Summarize(n) => new.output == old.output && summarized(old.plan.unwrap(), n@, new.plan.unwrap()),
        Verb::Head(lim) => if last {
            appended(old.output@, new.output@, table_text(old.plan.unwrap(), head_rows(lim)))
        } else {
            new.output == old.output && limited(old.plan.unwrap(), head_rows(lim), new.plan.unwrap())
        },
        Verb::Show => {
            let t = old.plan.unwrap();
            appended(old.output@, new.output@, table_text(t, t.num_rows()))
        },
    }
}

/// What evaluating `v` on `old` returns: the verb's error, or success.
pub open spec fn outcome(v: Verb, old: Context) -> Result<(), VerbError> {
    match verb_error(v, old.schema(), old.grouping) {
        Some(e) => Err(VerbError { verb: verb_name(v), kind: e }),
        None => Ok(()),
    }
}

/// The full contract of a verb's evaluation: it fails exactly when the
/// shared rules say so, leaving the state as it was, and otherwise has the
/// verb's effect.
pub open spec fn evaluated(v: Verb, last: bool, old: Context, new: Context, r: Result<(), VerbError>) -> bool {
    &&& r == outcome(v, old)
    &&& r is Err ==> new == old
    &&& r is Ok ==> effect(v, last, old, new)
}

/// Checks the shared rules for `v` against the state.
pub fn check_rules(v: &Verb, ctx: &Context) -> (r: Result<(), VerbError>)
    ensures
        r == outcome(*v, *ctx),
{
    let fields = match &ctx.plan {
        Some(t) => Some(&t.fields),
        None => None,
    };
    match check_verb(v, fields, ctx.grouping) {
        Some(kind) => Err(VerbError { verb: name_of(v), kind }),
        None => Ok(()),
    }
}

/// A copy of a table, cell for cell.
pub fn copy_table(t: &Table) -> (r: Table)
    requires
        t.wf(),
    ensures
        r.wf(),
        same_table(r, *t),
{
    let fields = copy_fields(&t.fields);
    let mut rows: Vec<Vec<Value>> = Vec::new();
    let mut i: usize = 0;
    while i < t.rows.len()
        invariant
            t.wf(),
            i <= t.rows@.len(),
            rows@.len() == i,
            forall|a: int| 0 <= a < i ==> (#[trigger] rows@[a])@.len() == t.fields@.len(),
            forall|a: int| 0 <= a < i ==> table_cells(*t)[a] == crate::table::row_cells(#[trigger] rows@[a]),
        decreases t.rows@.len() - i,
    {
        let row = copy_row(&t.rows[i]);
        proof {
            assert(crate::table::row_cells(row) =~= crate::table::row_cells(t.rows@[i as int]));
        }
        rows.push(row);
        i = i + 1;
    }
    let r = Table { fields, rows };
    assert(schema_of(r.fields@) =~= schema_of(t.fields@));
    assert(table_cells(r) =~= table_cells(*t));
    r
}

/// The first `n` rows of `t`.
pub fn limit(t: Table, n: usize) -> (r: Table)
    ensures
        limited(t, n as nat, r),
        t.wf() ==> r.wf(),
{
    let Table { fields, mut rows } = t;
    assert(t.rows@.subrange(0, t.rows@.len() as int) =~= t.rows@);
    rows.truncate(n);
    Table { fields, rows }
}

/// One row holding the number of rows of `t`, in a column called `name`.
pub fn summarize(t: &Table, name: &String) -> (r: Table)
    ensures
        summarized(*t, name@, r),
{
    let mut fields: Vec<Field> = Vec::new();
    fields.push(Field { name: name.clone(), dtype: DataType::Int64 });
    let mut row: Vec<Value> = Vec::new();
    row.push(Value::One(Scalar::Int(t.rows.len() as i64)));
    let mut rows: Vec<Vec<Value>> = Vec::new();
    rows.push(row);
    let r = Table { fields, rows };
    assert(schema_of(r.fields@) =~= seq![(name@, DataType::Int64)]);
    r
}

/// Evaluates one verb of a chain; `last` tells whether no verb follows it.
pub fn evaluate(v: &Verb, last: bool, ctx: &mut Context) -> (r: Result<(), VerbError>)
    requires
        old(ctx).wf(),
        v matches Verb::Source(t) ==> t.wf(),
    ensures
        evaluated(*v, last, *old(ctx), *final(ctx), r),
{
    match v {
        Verb::Show => return show::eval(ctx),
        Verb::Head(n) => return head::eval(*n, last, ctx),
        _ => {},
    }
    if let Err(e) = check_rules(v, ctx) {
        return Err(e);
    }
    match v {
        Verb::Source(t) => {
            ctx.plan = Some(copy_table(t));
            proof {
                lemma_schema_names(t.fields@);
            }
        },
        Verb::Select(items) => {
            let t = ctx.take_plan().unwrap();
            proof {
                lemma_schema_names(t.fields@);
            }
            let out = select(&t, items).unwrap();
            let ghost cols = select_columns(names_of(t.fields@), items@).unwrap();
            assert(forall|k: int| 0 <= k < cols.len() ==> schema_of(t.fields@)[(#[trigger] cols[k]).0].1 == t.fields@[cols[k].0].dtype);
            assert(schema_of(out.fields@) =~= cols.map_values(
                |c: (int, Seq<char>)| (c.1, schema_of(t.fields@)[c.0].1),
            ));
            ctx.plan = Some(out);
        },
        Verb::Unnest(n) => {
            let t = ctx.take_plan().unwrap();
            proof {
                lemma_schema_names(t.fields@);
            }
            let ghost j = index_of(names_of(t.fields@), n@);
            let ghost sc = schema_of(t.fields@);
            proof {
                crate::select::lemma_index_of_bounds(names_of(t.fields@), n@);
            }
            assert(old(ctx).schema() == Some(sc));
            assert(verb_error(*v, Some(sc), false) is None);
            assert(j >= 0 && sc[j].1 == t.fields@[j].dtype);
            assert(t.fields@[j].dtype is List);
            let res = unnest(&t, n.as_str());
            proof {
                // The rules checked above exclude both errors of `unnest`.
                assert(res != Err::<Table, crate::unnest::UnnestError>(crate::unnest::UnnestError::UnknownColumn));
                assert(res != Err::<Table, crate::unnest::UnnestError>(crate::unnest::UnnestError::NotAList));
                if res is Err {
                    let e = res->Err_0;
                    assert(e == crate::unnest::UnnestError::UnknownColumn || e == crate::unnest::UnnestError::NotAList);
                }
            }
            let out = res.unwrap();
            assert(schema_of(out.fields@) =~= sc.update(j, (sc[j].0, crate::unnest::elem_column_type(sc[j].1->List_0))));
            ctx.plan = Some(out);
        },
        Verb::GroupBy(_) => {
            ctx.grouping = true;
        },
        Verb::Summarize(n) => {
            let t = ctx.take_plan().unwrap();
            ctx.plan = Some(summarize(&t, n));
            ctx.grouping = false;
        },
        _ => {},
    }
    Ok(())
}

} // verus!
