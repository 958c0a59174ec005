//! Column selection: by name, with renames, and by name predicates.
use vstd::prelude::*;
use vstd::string::StrSliceExecFns;
use crate::table::{Field, Table, Value, copy_value, names_of};

verus! {

/// How a name predicate compares a column name with its pattern.
#[derive(Clone, Copy, Debug, PartialEq, Eq, Structural)]
pub enum Pattern {
    StartsWith,
    EndsWith,
    Contains,
}

/// One argument of `select`.
#[derive(Debug)]
pub enum SelectItem {
    /// A column kept under its own name.
    Column(String),
    /// `new = old`: a column kept under a new name.
    Rename(String, String),
    /// Every column whose name matches the pattern, or, when negated, every
    /// column whose name does not.
    Matching(Pattern, String, bool),
}

/// Whether `p` occurs in `name` at position `i`.
pub open spec fn occurs_at(name: Seq<char>, p: Seq<char>, i: int) -> bool {
    0 <= i && i + p.len() <= name.len() && name.subrange(i, i + p.len()) == p
}

pub open spec fn name_matches(kind: Pattern, p: Seq<char>, name: Seq<char>) -> bool {
    match kind {
        Pattern::StartsWith => occurs_at(name, p, 0),
        Pattern::EndsWith => occurs_at(name, p, name.len() - p.len()),
        Pattern::Contains => exists|i: int| occurs_at(name, p, i),
    }
}

/// The position of the first column called `n`, or -1.
pub open spec fn index_of(names: Seq<Seq<char>>, n: Seq<char>) -> int
    decreases names.len(),
{
    if names.len() == 0 {
        -1
    } else if names[0] == n {
        0
    } else {
        let r = index_of(names.drop_first(), n);
        if r < 0 {
            -1
        } else {
            r + 1
        }
    }
}

/// The columns among the first `k` whose match against the pattern differs
/// from `negated`, in schema order, each under its own name.
pub open spec fn match_columns(names: Seq<Seq<char>>, kind: Pattern, p: Seq<char>, negated: bool, k: nat) -> Seq<
    (int, Seq<char>),
>
    decreases k,
{
    if k == 0 {
        seq![]
    } else {
        let prev = match_columns(names, kind, p, negated, (k - 1) as nat);
        if name_matches(kind, p, names[k - 1]) != negated {
            prev.push((k - 1, names[k - 1]))
        } else {
            prev
        }
    }
}

/// The source columns and output names that one item selects, or `None`
/// when it names a column the schema lacks.
pub open spec fn item_columns(names: Seq<Seq<char>>, item: SelectItem) -> Option<Seq<(int, Seq<char>)>> {
    match item {
        SelectItem::Column(n) => if index_of(names, n@) < 0 {
            None
        } else {
            Some(seq![(index_of(names, n@), n@)])
        },
        SelectItem::Rename(new, old) => if index_of(names, old@) < 0 {
            None
        } else {
            Some(seq![(index_of(names, old@), new@)])
        },
        SelectItem::Matching(kind, p, negated) => Some(match_columns(names, kind, p@, negated, names.len())),
    }
}

/// The columns that all items select, one item after the other.
pub open spec fn select_columns(names: Seq<Seq<char>>, items: Seq<SelectItem>) -> Option<Seq<(int, Seq<char>)>>
    decreases items.len(),
{
    if items.len() == 0 {
        Some(seq![])
    } else {
        match (select_columns(names, items.drop_last()), item_columns(names, items.last())) {
            (Some(a), Some(b)) => Some(a + b),
            _ => None,
        }
    }
}

pub open spec fn projection_view(v: Seq<(usize, String)>) -> Seq<(int, Seq<char>)> {
    v.map_values(|p: (usize, String)| (p.0 as int, p.1@))
}

/// `index_of` finds the column it names, or gives -1.
pub proof fn lemma_index_of_bounds(names: Seq<Seq<char>>, n: Seq<char>)
    ensures
        -1 <= index_of(names, n) < names.len(),
        index_of(names, n) >= 0 ==> names[index_of(names, n)] == n,
    decreases names.len(),
{
    if names.len() > 0 && names[0] != n {
        lemma_index_of_bounds(names.drop_first(), n);
    }
}

proof fn lemma_index_of(names: Seq<Seq<char>>, n: Seq<char>, k: int)
    requires
        0 <= k <= names.len(),
        forall|i: int| 0 <= i < k ==> names[i] != n,
        k < names.len() ==> names[k] == n,
    ensures
        index_of(names, n) == if k < names.len() {
            k
        } else {
            -1
        },
    decreases names.len(),
{
    if names.len() > 0 && k > 0 {
        assert(names[0] != n);
        lemma_index_of(names.drop_first(), n, k - 1);
    }
}

proof fn lemma_prefix_none(names: Seq<Seq<char>>, items: Seq<SelectItem>, k: int)
    requires
        0 <= k <= items.len(),
        select_columns(names, items.subrange(0, k)) is None,
    ensures
        select_columns(names, items) is None,
    decreases items.len(),
{
    if k == items.len() {
        assert(items.subrange(0, k) =~= items);
    } else {
        assert(items.drop_last().subrange(0, k) =~= items.subrange(0, k));
        lemma_prefix_none(names, items.drop_last(), k);
    }
}

/// The position of the first column called `n`.
pub fn find_column(fields: &Vec<Field>, n: &str) -> (r: Option<usize>)
    ensures
        r is None <==> index_of(names_of(fields@), n@) < 0,
        r matches Some(j) ==> j as int == index_of(names_of(fields@), n@) && j < fields@.len(),
{
    let ghost names = names_of(fields@);
    let mut k: usize = 0;
    while k < fields.len()
        invariant
            k <= fields@.len(),
            names == names_of(fields@),
            forall|i: int| 0 <= i < k ==> names[i] != n@,
        decreases fields@.len() - k,
    {
        if str_equal(fields[k].name.as_str(), n) {
            proof {
                lemma_index_of(names, n@, k as int);
            }
            return Some(k);
        }
        k = k + 1;
    }
    proof {
        lemma_index_of(names, n@, k as int);
    }
    None
}

/// Whether two strings hold the same characters.
pub fn str_equal(a: &str, b: &str) -> (r: bool)
    ensures
        r == (a@ == b@),
{
    let n = a.unicode_len();
    if n != b.unicode_len() {
        return false;
    }
    let mut k: usize = 0;
    while k < n
        invariant
            n == a@.len(),
            n == b@.len(),
            k <= n,
            forall|j: int| 0 <= j < k ==> a@[j] == b@[j],
        decreases n - k,
    {
        if a.get_char(k) != b.get_char(k) {
            return false;
        }
        k = k + 1;
    }
    assert(a@ =~= b@);
    true
}

/// Whether `p` occurs in `name` at position `i`.
fn matches_at(name: &str, p: &str, i: usize) -> (r: bool)
    requires
        i + p@.len() <= name@.len(),
    ensures
        r == occurs_at(name@, p@, i as int),
{
    let plen = p.unicode_len();
    let n = name.unicode_len();
    let mut k: usize = 0;
    while k < plen
        invariant
            plen == p@.len(),
            n == name@.len(),
            i + plen <= name@.len(),
            k <= plen,
            forall|j: int| 0 <= j < k ==> name@[i + j] == p@[j],
        decreases plen - k,
    {
        if name.get_char(i + k) != p.get_char(k) {
            assert(name@.subrange(i as int, i + plen)[k as int] != p@[k as int]);
            return false;
        }
        k = k + 1;
    }
    assert(name@.subrange(i as int, i + plen) =~= p@);
    true
}

/// Whether a column name satisfies a name predicate.
pub fn name_matches_exec(kind: Pattern, p: &str, name: &str) -> (r: bool)
    ensures
        r == name_matches(kind, p@, name@),
{
    let n = name.unicode_len();
    let plen = p.unicode_len();
    if plen > n {
        return false;
    }
    match kind {
        Pattern::StartsWith => matches_at(name, p, 0),
        Pattern::EndsWith => matches_at(name, p, n - plen),
        Pattern::Contains => {
            let mut i: usize = 0;
            while i < n - plen
                invariant
                    kind == Pattern::Contains,
                    n == name@.len(),
                    plen == p@.len(),
                    plen <= n,
                    i <= n - plen,
                    forall|j: int| 0 <= j < i ==> !occurs_at(name@, p@, j),
                decreases n - plen - i,
            {
                if matches_at(name, p, i) {
                    assert(occurs_at(name@, p@, i as int));
                    return true;
                }
                i = i + 1;
            }
            let last = matches_at(name, p, n - plen);
            if last {
                assert(occurs_at(name@, p@, (n - plen) as int));
            } else {
                assert forall|j: int| !occurs_at(name@, p@, j) by {
                    if 0 <= j && j + p@.len() <= name@.len() {
                        assert(j <= i);
                    }
                }
            }
            last
        },
    }
}

/// The source columns and output names that `items` select from `fields`.
pub fn resolve_select(fields: &Vec<Field>, items: &Vec<SelectItem>) -> (r: Option<Vec<(usize, String)>>)
    ensures
        r is None <==> select_columns(names_of(fields@), items@) is None,
        r matches Some(v) ==> select_columns(names_of(fields@), items@) == Some(projection_view(v@)),
        r matches Some(v) ==> forall|j: int| 0 <= j < v@.len() ==> (#[trigger] v@[j]).0 < fields@.len(),
{
    let ghost names = names_of(fields@);
    let mut out: Vec<(usize, String)> = Vec::new();
    let mut k: usize = 0;
    while k < items.len()
        invariant
            k <= items@.len(),
            names == names_of(fields@),
            select_columns(names, items@.subrange(0, k as int)) == Some(projection_view(out@)),
            forall|j: int| 0 <= j < out@.len() ==> (#[trigger] out@[j]).0 < fields@.len(),
        decreases items@.len() - k,
    {
        let ghost before = out@;
        proof {
            assert(items@.subrange(0, k + 1).drop_last() =~= items@.subrange(0, k as int));
        }
        match &items[k] {
            SelectItem::Column(n) => {
                match find_column(fields, n.as_str()) {
                    Some(j) => out.push((j, n.clone())),
                    None => {
                        proof {
                            lemma_prefix_none(names, items@, k + 1);
                        }
                        return None;
                    },
                }
            },
            SelectItem::Rename(new, old) => {
                match find_column(fields, old.as_str()) {
                    Some(j) => out.push((j, new.clone())),
                    None => {
                        proof {
                            lemma_prefix_none(names, items@, k + 1);
                        }
                        return None;
                    },
                }
            },
            SelectItem::Matching(kind, p, negated) => {
                let mut j: usize = 0;
                while j < fields.len()
                    invariant
                        j <= fields@.len(),
                        names == names_of(fields@),
                        projection_view(out@) == projection_view(before) + match_columns(
                            names,
                            *kind,
                            p@,
                            *negated,
                            j as nat,
                        ),
                        forall|i: int| 0 <= i < out@.len() ==> (#[trigger] out@[i]).0 < fields@.len(),
                    decreases fields@.len() - j,
                {
                    let ghost mid = out@;
                    if name_matches_exec(*kind, p.as_str(), fields[j].name.as_str()) != *negated {
                        out.push((j, fields[j].name.clone()));
                        assert(projection_view(out@) =~= projection_view(mid).push((j as int, names[j as int])));
                    } else {
                        assert(out@ == mid);
                    }
                    j = j + 1;
                    assert(projection_view(out@) =~= projection_view(before) + match_columns(
                        names,
                        *kind,
                        p@,
                        *negated,
                        j as nat,
                    ));
                }
            },
        }
        k = k + 1;
        assert(projection_view(out@) =~= projection_view(before) + item_columns(names, items@[k - 1]).unwrap());
    }
    assert(items@.subrange(0, k as int) =~= items@);
    Some(out)
}

/// `r` holds, for every row of `t`, the chosen columns in the order given,
/// under the names given, with their types and values unchanged.
pub open spec fn projected(t: Table, cols: Seq<(int, Seq<char>)>, r: Table) -> bool {
    &&& r.wf()
    &&& r.num_rows() == t.num_rows()
    &&& r.num_cols() == cols.len()
    &&& forall|k: int| 0 <= k < cols.len() ==> 0 <= (#[trigger] cols[k]).0 < t.num_cols()
    &&& forall|k: int|
        0 <= k < cols.len() ==> (#[trigger] r.fields@[k]).name@ == cols[k].1 && r.fields@[k].dtype
            == t.fields@[cols[k].0].dtype
    &&& forall|i: int, k: int|
        0 <= i < r.num_rows() && 0 <= k < cols.len() ==> #[trigger] r.cell(i, k) == t.cell(i, cols[k].0)
}

/// The table of the chosen columns, under their new names.
pub fn project(t: &Table, cols: &Vec<(usize, String)>) -> (r: Table)
    requires
        t.wf(),
        forall|k: int| 0 <= k < cols@.len() ==> (#[trigger] cols@[k]).0 < t.num_cols(),
    ensures
        projected(*t, projection_view(cols@), r),
{
    let ghost pv = projection_view(cols@);
    let mut fields: Vec<Field> = Vec::new();
    let mut k: usize = 0;
    while k < cols.len()
        invariant
            k <= cols@.len(),
            pv == projection_view(cols@),
            forall|j: int| 0 <= j < cols@.len() ==> (#[trigger] cols@[j]).0 < t.num_cols(),
            fields@.len() == k,
            forall|j: int|
                0 <= j < k ==> (#[trigger] fields@[j]).name@ == pv[j].1 && fields@[j].dtype
                    == t.fields@[pv[j].0].dtype,
        decreases cols@.len() - k,
    {
        fields.push(Field { name: cols[k].1.clone(), dtype: t.fields[cols[k].0].dtype });
        k = k + 1;
    }
    let mut rows: Vec<Vec<Value>> = Vec::new();
    let mut i: usize = 0;
    while i < t.rows.len()
        invariant
            t.wf(),
            i <= t.rows@.len(),
            pv == projection_view(cols@),
            forall|j: int| 0 <= j < cols@.len() ==> (#[trigger] cols@[j]).0 < t.num_cols(),
            rows@.len() == i,
            forall|a: int| 0 <= a < i ==> (#[trigger] rows@[a])@.len() == cols@.len(),
            forall|a: int, b: int|
                0 <= a < i && 0 <= b < cols@.len() ==> (#[trigger] rows@[a]@[b]).model() == t.cell(a, pv[b].0),
        decreases t.rows@.len() - i,
    {
        let mut row: Vec<Value> = Vec::new();
        let mut k: usize = 0;
        while k < cols.len()
            invariant
                t.wf(),
                i < t.rows@.len(),
                k <= cols@.len(),
                pv == projection_view(cols@),
                forall|j: int| 0 <= j < cols@.len() ==> (#[trigger] cols@[j]).0 < t.num_cols(),
                row@.len() == k,
                forall|b: int| 0 <= b < k ==> (#[trigger] row@[b]).model() == t.cell(i as int, pv[b].0),
            decreases cols@.len() - k,
        {
            row.push(copy_value(&t.rows[i][cols[k].0]));
            k = k + 1;
        }
        rows.push(row);
        i = i + 1;
    }
    let r = Table { fields, rows };
    assert(r.wf());
    r
}

/// Keeps the columns that `items` select, in their order, under their names;
/// `None` when an item names a column that `t` lacks.
pub fn select(t: &Table, items: &Vec<SelectItem>) -> (r: Option<Table>)
    requires
        t.wf(),
    ensures
        r is None <==> select_columns(names_of(t.fields@), items@) is None,
        r matches Some(out) ==> projected(*t, select_columns(names_of(t.fields@), items@).unwrap(), out),
{
    match resolve_select(&t.fields, items) {
        Some(cols) => Some(project(t, &cols)),
        None => None,
    }
}

/// Whether column `j` is among the selected columns.
pub open spec fn selects(cols: Seq<(int, Seq<char>)>, j: int) -> bool {
    exists|a: int| 0 <= a < cols.len() && (#[trigger] cols[a]).0 == j
}

proof fn lemma_match_columns(names: Seq<Seq<char>>, kind: Pattern, p: Seq<char>, negated: bool, k: nat, j: int)
    requires
        k <= names.len(),
    ensures
        selects(match_columns(names, kind, p, negated, k), j) <==> (0 <= j < k && name_matches(
            kind,
            p,
            names[j],
        ) != negated),
    decreases k,
{
    if k > 0 {
        let prev = match_columns(names, kind, p, negated, (k - 1) as nat);
        lemma_match_columns(names, kind, p, negated, (k - 1) as nat, j);
        let cur = match_columns(names, kind, p, negated, k);
        if name_matches(kind, p, names[k - 1]) != negated {
            assert(cur == prev.push((k - 1, names[k - 1])));
            if selects(prev, j) {
                let a = choose|a: int| 0 <= a < prev.len() && (#[trigger] prev[a]).0 == j;
                assert(cur[a] == prev[a]);
            }
            if j == k - 1 {
                assert(cur[prev.len() as int].0 == j);
            }
            if selects(cur, j) && j != k - 1 {
                let a = choose|a: int| 0 <= a < cur.len() && (#[trigger] cur[a]).0 == j;
                assert(prev[a] == cur[a]);
            }
        }
    }
}

/// A name predicate selects exactly the columns whose names match it, its
/// negation exactly the others: together they split the columns in two
/// disjoint parts.
pub proof fn lemma_predicate_partition(names: Seq<Seq<char>>, kind: Pattern, p: Seq<char>, j: int)
    requires
        0 <= j < names.len(),
    ensures
        selects(match_columns(names, kind, p, false, names.len()), j) <==> name_matches(kind, p, names[j]),
        selects(match_columns(names, kind, p, true, names.len()), j) <==> !name_matches(kind, p, names[j]),
        selects(match_columns(names, kind, p, false, names.len()), j) != selects(
            match_columns(names, kind, p, true, names.len()),
            j,
        ),
{
    lemma_match_columns(names, kind, p, false, names.len(), j);
    lemma_match_columns(names, kind, p, true, names.len(), j);
}

/// Whether no two columns share a name.
pub open spec fn distinct_names(names: Seq<Seq<char>>) -> bool {
    forall|a: int, b: int| 0 <= a < b < names.len() ==> names[a] != names[b]
}

/// Whether the name `n` is among the selected output names.
pub open spec fn selects_name(cols: Seq<(int, Seq<char>)>, n: Seq<char>) -> bool {
    exists|a: int| 0 <= a < cols.len() && (#[trigger] cols[a]).1 == n
}

proof fn lemma_match_columns_shape(names: Seq<Seq<char>>, kind: Pattern, p: Seq<char>, negated: bool, k: nat)
    requires
        k <= names.len(),
    ensures
        forall|a: int|
            0 <= a < match_columns(names, kind, p, negated, k).len() ==> 0 <= (#[trigger] match_columns(
                names,
                kind,
                p,
                negated,
                k,
            )[a]).0 < k && match_columns(names, kind, p, negated, k)[a].1 == names[match_columns(
                names,
                kind,
                p,
                negated,
                k,
            )[a].0],
        forall|a: int, b: int|
            0 <= a < b < match_columns(names, kind, p, negated, k).len() ==> (#[trigger] match_columns(
                names,
                kind,
                p,
                negated,
                k,
            )[a]).0 < (#[trigger] match_columns(names, kind, p, negated, k)[b]).0,
    decreases k,
{
    if k > 0 {
        lemma_match_columns_shape(names, kind, p, negated, (k - 1) as nat);
        let prev = match_columns(names, kind, p, negated, (k - 1) as nat);
        let cur = match_columns(names, kind, p, negated, k);
        if name_matches(kind, p, names[k - 1]) != negated {
            assert(cur == prev.push((k - 1, names[k - 1])));
            assert forall|a: int| 0 <= a < cur.len() implies 0 <= (#[trigger] cur[a]).0 < k && cur[a].1
                == names[cur[a].0] by {
                if a < prev.len() {
                    assert(cur[a] == prev[a]);
                }
            }
            assert forall|a: int, b: int| 0 <= a < b < cur.len() implies (#[trigger] cur[a]).0 < (
            #[trigger] cur[b]).0 by {
                assert(cur[a] == prev[a]);
                if b < prev.len() {
                    assert(cur[b] == prev[b]);
                }
            }
        }
    }
}

/// With distinct column names, a name predicate selects exactly the names
/// that match it and its negation exactly the others, each name once; so
/// the two selections are disjoint and together hold every column.
pub proof fn lemma_predicate_split_names(names: Seq<Seq<char>>, kind: Pattern, p: Seq<char>)
    requires
        distinct_names(names),
    ensures
        forall|n: Seq<char>|
            #[trigger] selects_name(match_columns(names, kind, p, false, names.len()), n) <==> (names.contains(n)
                && name_matches(kind, p, n)),
        forall|n: Seq<char>|
            #[trigger] selects_name(match_columns(names, kind, p, true, names.len()), n) <==> (names.contains(n)
                && !name_matches(kind, p, n)),
        forall|a: int, b: int|
            0 <= a < b < match_columns(names, kind, p, false, names.len()).len() ==> (#[trigger] match_columns(
                names,
                kind,
                p,
                false,
                names.len(),
            )[a]).1 != (#[trigger] match_columns(names, kind, p, false, names.len())[b]).1,
        forall|a: int, b: int|
            0 <= a < b < match_columns(names, kind, p, true, names.len()).len() ==> (#[trigger] match_columns(
                names,
                kind,
                p,
                true,
                names.len(),
            )[a]).1 != (#[trigger] match_columns(names, kind, p, true, names.len())[b]).1,
{
    lemma_split_side(names, kind, p, false);
    lemma_split_side(names, kind, p, true);
}

proof fn lemma_split_side(names: Seq<Seq<char>>, kind: Pattern, p: Seq<char>, negated: bool)
    requires
        distinct_names(names),
    ensures
        forall|n: Seq<char>|
            #[trigger] selects_name(match_columns(names, kind, p, negated, names.len()), n) <==> (names.contains(n)
                && name_matches(kind, p, n) != negated),
        forall|a: int, b: int|
            0 <= a < b < match_columns(names, kind, p, negated, names.len()).len() ==> (#[trigger] match_columns(
                names,
                kind,
                p,
                negated,
                names.len(),
            )[a]).1 != (#[trigger] match_columns(names, kind, p, negated, names.len())[b]).1,
{
    let mc = match_columns(names, kind, p, negated, names.len());
    lemma_match_columns_shape(names, kind, p, negated, names.len());
    assert forall|n: Seq<char>| #[trigger] selects_name(mc, n) <==> (names.contains(n) && name_matches(kind, p, n)
        != negated) by {
        if selects_name(mc, n) {
            let a = choose|a: int| 0 <= a < mc.len() && (#[trigger] mc[a]).1 == n;
            let j = mc[a].0;
            lemma_match_columns(names, kind, p, negated, names.len(), j);
            assert(selects(mc, j));
            assert(names[j] == n);
        }
        if names.contains(n) && name_matches(kind, p, n) != negated {
            let j = choose|j: int| 0 <= j < names.len() && names[j] == n;
            lemma_match_columns(names, kind, p, negated, names.len(), j);
            let a = choose|a: int| 0 <= a < mc.len() && (#[trigger] mc[a]).0 == j;
            assert(mc[a].1 == n);
        }
    }
    assert forall|a: int, b: int| 0 <= a < b < mc.len() implies (#[trigger] mc[a]).1 != (#[trigger] mc[b]).1 by {
        assert(mc[a].0 < mc[b].0);
    }
}

} // verus!
