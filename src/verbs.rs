//! Verbs with typed arguments, their errors, and the schema-level rules that
//! the validator and the evaluators share.
use vstd::prelude::*;
use vstd::string::StrSliceExecFns;
use crate::select::{SelectItem, index_of, select_columns};
use crate::table::{DataType, Field, Table};
use crate::unnest::elem_column_type;

verus! {

/// One verb of a chain, with its arguments.
#[derive(Debug)]
pub enum Verb {
    /// Starts a chain from a table that the caller has read.
    Source(Table),
    Select(Vec<SelectItem>),
    Unnest(String),
    GroupBy(Vec<String>),
    /// Collapses the grouped rows into one row holding their count, in a
    /// column of the given name.
    Summarize(String),
    /// A row limit; the default is ten rows.
    Head(Option<usize>),
    Show,
}

#[derive(Clone, Copy, Debug, PartialEq, Eq, Structural)]
pub enum VerbName {
    Source,
    Select,
    Unnest,
    GroupBy,
    Summarize,
    Head,
    Show,
}

#[derive(Clone, Copy, Debug, PartialEq, Eq, Structural)]
pub enum ErrorKind {
    MissingInput,
    MustSummarize,
    NotGrouped,
    UnknownColumn,
    NotAList,
}

/// An error, with the verb that raised it.
#[derive(Clone, Copy, Debug, PartialEq, Eq, Structural)]
pub struct VerbError {
    pub verb: VerbName,
    pub kind: ErrorKind,
}

/// The row limit of `head` when none is given.
pub const DEFAULT_HEAD_ROWS: usize = 10;

/// A schema as a sequence of column names and types.
pub type Schema = Seq<(Seq<char>, DataType)>;

pub open spec fn schema_of(fields: Seq<Field>) -> Schema {
    fields.map_values(|f: Field| (f.name@, f.dtype))
}

pub open spec fn schema_names(s: Schema) -> Seq<Seq<char>> {
    s.map_values(|c: (Seq<char>, DataType)| c.0)
}

pub open spec fn verb_name(v: Verb) -> VerbName {
    match v {
        Verb::Source(_) => VerbName::Source,
        Verb::Select(_) => VerbName::Select,
        Verb::Unnest(_) => VerbName::Unnest,
        Verb::GroupBy(_) => VerbName::GroupBy,
        Verb::Summarize(_) => VerbName::Summarize,
        Verb::Head(_) => VerbName::Head,
        Verb::Show => VerbName::Show,
    }
}

pub open spec fn is_aggregation(v: Verb) -> bool {
    v is Summarize
}

/// Whether every name is a column of the schema.
pub open spec fn all_known(s: Schema, cols: Seq<String>) -> bool {
    forall|k: int| 0 <= k < cols.len() ==> index_of(schema_names(s), (#[trigger] cols[k])@) >= 0
}

/// The error a verb raises on a plan of schema `s` (`None`: no plan), in the
/// given grouping state; `None` when it may run.
pub open spec fn verb_error(v: Verb, s: Option<Schema>, grouping: bool) -> Option<ErrorKind> {
    if is_aggregation(v) {
        if s is None {
            Some(ErrorKind::MissingInput)
        } else if !grouping {
            Some(ErrorKind::NotGrouped)
        } else {
            None
        }
    } else if grouping {
        Some(ErrorKind::MustSummarize)
    } else if v is Source {
        None
    } else if s is None {
        Some(ErrorKind::MissingInput)
    } else {
        let sc = s.unwrap();
        match v {
            Verb::Select(items) => if select_columns(schema_names(sc), items@) is None {
                Some(ErrorKind::UnknownColumn)
            } else {
                None
            },
            Verb::Unnest(n) => {
                let j = index_of(schema_names(sc), n@);
                if j < 0 {
                    Some(ErrorKind::UnknownColumn)
                } else if !(sc[j].1 is List) {
                    Some(ErrorKind::NotAList)
                } else {
                    None
                }
            },
            Verb::GroupBy(cols) => if all_known(sc, cols@) {
                None
            } else {
                Some(ErrorKind::UnknownColumn)
            },
            _ => None,
        }
    }
}

/// The schema of the plan after a verb that may run (`None`: a sink took
/// the plan). `last` tells whether no verb follows.
pub open spec fn next_schema(v: Verb, s: Option<Schema>, last: bool) -> Option<Schema> {
    match v {
        Verb::Source(t) => Some(schema_of(t.fields@)),
        Verb::Select(items) => {
            let sc = s.unwrap();
            Some(
                select_columns(schema_names(sc), items@).unwrap().map_values(
                    |c: (int, Seq<char>)| (c.1, sc[c.0].1),
                ),
            )
        },
        Verb::Unnest(n) => {
            let sc = s.unwrap();
            let j = index_of(schema_names(sc), n@);
            Some(sc.update(j, (sc[j].0, elem_column_type(sc[j].1->List_0))))
        },
        Verb::GroupBy(_) => s,
        Verb::Summarize(n) => Some(seq![(n@, DataType::Int64)]),
        Verb::Head(_) => if last {
            None
        } else {
            s
        },
        Verb::Show => None,
    }
}

pub open spec fn next_grouping(v: Verb, grouping: bool) -> bool {
    match v {
        Verb::GroupBy(_) => true,
        Verb::Summarize(_) => false,
        _ => grouping,
    }
}

/// The outcome of a chain from verb `k` on, from a plan of schema `s` in the
/// given grouping state: the first error, or success. A chain may not end
/// while grouped.
pub open spec fn chain_from(chain: Seq<Verb>, k: int, s: Option<Schema>, grouping: bool) -> Result<(), VerbError>
    decreases chain.len() - k,
{
    if k >= chain.len() || k < 0 {
        if grouping {
            Err(VerbError { verb: VerbName::GroupBy, kind: ErrorKind::MustSummarize })
        } else {
            Ok(())
        }
    } else {
        let v = chain[k];
        match verb_error(v, s, grouping) {
            Some(e) => Err(VerbError { verb: verb_name(v), kind: e }),
            None => chain_from(
                chain,
                k + 1,
                next_schema(v, s, k + 1 == chain.len()),
                next_grouping(v, grouping),
            ),
        }
    }
}

/// The outcome of a whole chain, from no plan and no grouping.
pub open spec fn check_chain(chain: Seq<Verb>) -> Result<(), VerbError> {
    chain_from(chain, 0, None, false)
}

pub open spec fn verb_name_text(v: VerbName) -> Seq<char> {
    match v {
        VerbName::Source => "source"@,
        VerbName::Select => "select"@,
        VerbName::Unnest => "unnest"@,
        VerbName::GroupBy => "group_by"@,
        VerbName::Summarize => "summarize"@,
        VerbName::Head => "head"@,
        VerbName::Show => "show"@,
    }
}

pub open spec fn kind_text(k: ErrorKind) -> Seq<char> {
    match k {
        ErrorKind::MissingInput => "missing input dataframe"@,
        ErrorKind::MustSummarize => "must call summarize after a group_by"@,
        ErrorKind::NotGrouped => "must call group_by before summarize"@,
        ErrorKind::UnknownColumn => "unknown column"@,
        ErrorKind::NotAList => "column is not a list"@,
    }
}

impl VerbError {
    pub open spec fn text(&self) -> Seq<char> {
        verb_name_text(self.verb) + " error: "@ + kind_text(self.kind)
    }

    /// The one-line message, prefixed by the verb's name.
    pub fn message(&self) -> (r: String)
        ensures
            r@ == self.text(),
    {
        let mut out = String::new();
        match self.verb {
            VerbName::Source => out.append("source"),
            VerbName::Select => out.append("select"),
            VerbName::Unnest => out.append("unnest"),
            VerbName::GroupBy => out.append("group_by"),
            VerbName::Summarize => out.append("summarize"),
            VerbName::Head => out.append("head"),
            VerbName::Show => out.append("show"),
        }
        out.append(" error: ");
        match self.kind {
            ErrorKind::MissingInput => out.append("missing input dataframe"),
            ErrorKind::MustSummarize => out.append("must call summarize after a group_by"),
            ErrorKind::NotGrouped => out.append("must call group_by before summarize"),
            ErrorKind::UnknownColumn => out.append("unknown column"),
            ErrorKind::NotAList => out.append("column is not a list"),
        }
        assert(out@ =~= self.text());
        out
    }
}

/// The name of a verb.
pub fn name_of(v: &Verb) -> (r: VerbName)
    ensures
        r == verb_name(*v),
{
    match v {
        Verb::Source(_) => VerbName::Source,
        Verb::Select(_) => VerbName::Select,
        Verb::Unnest(_) => VerbName::Unnest,
        Verb::GroupBy(_) => VerbName::GroupBy,
        Verb::Summarize(_) => VerbName::Summarize,
        Verb::Head(_) => VerbName::Head,
        Verb::Show => VerbName::Show,
    }
}

/// While grouped, only an aggregation may come next, and a chain may not end:
/// from a grouped state, a chain whose next verb is not `summarize` (or that
/// has no next verb) fails with the grouping error.
pub proof fn lemma_grouped_needs_summarize(chain: Seq<Verb>, k: int, s: Option<Schema>)
    requires
        0 <= k <= chain.len(),
        k == chain.len() || !is_aggregation(chain[k]),
    ensures
        chain_from(chain, k, s, true) == Err::<(), VerbError>(
            VerbError {
                verb: if k < chain.len() {
                    verb_name(chain[k])
                } else {
                    VerbName::GroupBy
                },
                kind: ErrorKind::MustSummarize,
            },
        ),
{
}

/// A `group_by` not followed at once by `summarize` makes the chain fail:
/// with the grouping error, unless the `group_by` itself is rejected.
pub proof fn lemma_unclosed_group_fails(chain: Seq<Verb>, g: int, s: Option<Schema>, grouping: bool)
    requires
        0 <= g < chain.len(),
        chain[g] is GroupBy,
        g + 1 == chain.len() || !is_aggregation(chain[g + 1]),
    ensures
        chain_from(chain, g, s, grouping) is Err,
        verb_error(chain[g], s, grouping) is None ==> chain_from(chain, g, s, grouping)->Err_0.kind
            == ErrorKind::MustSummarize,
{
    if verb_error(chain[g], s, grouping) is None {
        lemma_grouped_needs_summarize(chain, g + 1, next_schema(chain[g], s, g + 1 == chain.len()));
    }
}

} // verus!
