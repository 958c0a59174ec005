//! The static pass: walks a chain over a simulated schema, without touching
//! any rows, and reports the first illegal verb.
use vstd::prelude::*;
use crate::select::{find_column, index_of, resolve_select, select_columns};
use crate::table::{DataType, Field, copy_fields, names_of};
use crate::unnest::elem_column_type;
use crate::verbs::{
    ErrorKind, Schema, Verb, VerbError, all_known, chain_from, check_chain, name_of, next_grouping, next_schema,
    schema_names, schema_of, verb_error,
};

verus! {

pub open spec fn opt_schema(f: Option<Vec<Field>>) -> Option<Schema> {
    match f {
        Some(v) => Some(schema_of(v@)),
        None => None,
    }
}

pub proof fn lemma_schema_names(fields: Seq<Field>)
    ensures
        schema_names(schema_of(fields)) == names_of(fields),
{
    assert(schema_names(schema_of(fields)) =~= names_of(fields));
}

/// Whether every name in `cols` is a column of `fields`.
fn all_columns_known(fields: &Vec<Field>, cols: &Vec<String>) -> (r: bool)
    ensures
        r == all_known(schema_of(fields@), cols@),
{
    proof {
        lemma_schema_names(fields@);
    }
    let mut k: usize = 0;
    while k < cols.len()
        invariant
            k <= cols@.len(),
            schema_names(schema_of(fields@)) == names_of(fields@),
            forall|a: int| 0 <= a < k ==> index_of(schema_names(schema_of(fields@)), (#[trigger] cols@[a])@) >= 0,
        decreases cols@.len() - k,
    {
        if find_column(fields, cols[k].as_str()).is_none() {
            return false;
        }
        k = k + 1;
    }
    true
}

/// The error that `v` raises on a plan of schema `fields` (`None`: no plan)
/// in the given grouping state, or `None` when it may run. The validator and
/// the evaluators both decide through this function.
pub fn check_verb(v: &Verb, fields: Option<&Vec<Field>>, grouping: bool) -> (r: Option<ErrorKind>)
    ensures
        r == verb_error(
            *v,
            match fields {
                Some(f) => Some(schema_of(f@)),
                None => None,
            },
            grouping,
        ),
{
    match v {
        Verb::Summarize(_) => {
            if fields.is_none() {
                return Some(ErrorKind::MissingInput);
            }
            if !grouping {
                return Some(ErrorKind::NotGrouped);
            }
            return None;
        },
        _ => {},
    }
    if grouping {
        return Some(ErrorKind::MustSummarize);
    }
    let f = match v {
        Verb::Source(_) => return None,
        _ => match fields {
            Some(f) => f,
            None => return Some(ErrorKind::MissingInput),
        },
    };
    proof {
        lemma_schema_names(f@);
    }
    match v {
        Verb::Select(items) => {
            if resolve_select(f, items).is_none() {
                Some(ErrorKind::UnknownColumn)
            } else {
                None
            }
        },
        Verb::Unnest(n) => {
            match find_column(f, n.as_str()) {
                None => Some(ErrorKind::UnknownColumn),
                Some(j) => match f[j].dtype {
                    DataType::List(_) => None,
                    _ => Some(ErrorKind::NotAList),
                },
            }
        },
        Verb::GroupBy(cols) => {
            if all_columns_known(f, cols) {
                None
            } else {
                Some(ErrorKind::UnknownColumn)
            }
        },
        _ => None,
    }
}

/// The simulated schema after a verb that may run.
fn step_schema(v: &Verb, fields: Option<Vec<Field>>, last: bool) -> (r: Option<Vec<Field>>)
    requires
        verb_error(*v, opt_schema(fields), false) is None || (v is Summarize && fields is Some),
    ensures
        opt_schema(r) == next_schema(*v, opt_schema(fields), last),
{
    match v {
        Verb::Source(t) => {
            let f = copy_fields(&t.fields);
            assert(schema_of(f@) =~= schema_of(t.fields@));
            Some(f)
        },
        Verb::Select(items) => {
            let f = fields.unwrap();
            proof {
                lemma_schema_names(f@);
            }
            let cols = resolve_select(&f, items).unwrap();
            let mut out: Vec<Field> = Vec::new();
            let mut k: usize = 0;
            while k < cols.len()
                invariant
                    k <= cols@.len(),
                    forall|j: int| 0 <= j < cols@.len() ==> (#[trigger] cols@[j]).0 < f@.len(),
                    out@.len() == k,
                    forall|j: int|
                        0 <= j < k ==> (#[trigger] out@[j]).name@ == cols@[j].1@ && out@[j].dtype
                            == f@[cols@[j].0 as int].dtype,
                decreases cols@.len() - k,
            {
                out.push(Field { name: cols[k].1.clone(), dtype: f[cols[k].0].dtype });
                k = k + 1;
            }
            let ghost sc = schema_of(f@);
            assert(schema_of(out@) =~= select_columns(schema_names(sc), items@).unwrap().map_values(
                |c: (int, Seq<char>)| (c.1, sc[c.0].1),
            ));
            Some(out)
        },
        Verb::Unnest(n) => {
            let f = fields.unwrap();
            proof {
                lemma_schema_names(f@);
            }
            let j = find_column(&f, n.as_str()).unwrap();
            let e = match f[j].dtype {
                DataType::List(e) => e,
                _ => return None,
            };
            let mut out: Vec<Field> = Vec::new();
            let mut k: usize = 0;
            while k < f.len()
                invariant
                    k <= f@.len(),
                    j < f@.len(),
                    f@[j as int].dtype == DataType::List(e),
                    out@.len() == k,
                    forall|b: int|
                        0 <= b < k ==> (#[trigger] out@[b]).name@ == f@[b].name@ && out@[b].dtype == if b == j {
                            elem_column_type(e)
                        } else {
                            f@[b].dtype
                        },
                decreases f@.len() - k,
            {
                let dtype = if k == j {
                    match e {
                        crate::table::ElemType::Int64 => DataType::Int64,
                        crate::table::ElemType::Float64 => DataType::Float64,
                        crate::table::ElemType::Utf8 => DataType::Utf8,
                    }
                } else {
                    f[k].dtype
                };
                out.push(Field { name: f[k].name.clone(), dtype });
                k = k + 1;
            }
            let ghost sc = schema_of(f@);
            assert(schema_of(out@) =~= sc.update(j as int, (sc[j as int].0, elem_column_type(sc[j as int].1->List_0))));
            Some(out)
        },
        Verb::GroupBy(_) => fields,
        Verb::Summarize(n) => {
            let mut out: Vec<Field> = Vec::new();
            out.push(Field { name: n.clone(), dtype: DataType::Int64 });
            assert(schema_of(out@) =~= seq![(n@, DataType::Int64)]);
            Some(out)
        },
        Verb::Head(_) => if last {
            None
        } else {
            fields
        },
        Verb::Show => None,
    }
}

/// Checks a whole chain against the schemas it would produce, before any
/// row is read: the first error, or success.
pub fn pipeline(chain: &Vec<Verb>) -> (r: Result<(), VerbError>)
    ensures
        r == check_chain(chain@),
{
    let mut schema: Option<Vec<Field>> = None;
    let mut grouping = false;
    let mut k: usize = 0;
    while k < chain.len()
        invariant
            k <= chain@.len(),
            check_chain(chain@) == chain_from(chain@, k as int, opt_schema(schema), grouping),
        decreases chain@.len() - k,
    {
        let v = &chain[k];
        let ghost g0 = grouping;
        match check_verb(v, schema.as_ref(), grouping) {
            Some(kind) => return Err(VerbError { verb: name_of(v), kind }),
            None => {},
        }
        let last = k + 1 == chain.len();
        schema = step_schema(v, schema, last);
        grouping = match v {
            Verb::GroupBy(_) => true,
            Verb::Summarize(_) => false,
            _ => grouping,
        };
        assert(grouping == next_grouping(chain@[k as int], g0));
        k = k + 1;
    }
    if grouping {
        return Err(VerbError { verb: crate::verbs::VerbName::GroupBy, kind: ErrorKind::MustSummarize });
    }
    Ok(())
}

} // verus!
