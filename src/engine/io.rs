//! The partitioned side of execution: a plan's rows are dealt out to
//! partitions, and whatever order the partitions deliver their rows in, the
//! consumer collects each row exactly once.
use vstd::prelude::*;
use crate::table::{Cell, Field, Table, Value, copy_fields, copy_row, row_cells, table_cells};
use crate::verbs::schema_of;
use crate::text::{render, table_text};
use vstd::arithmetic::div_mod::{lemma_fundamental_div_mod, lemma_mod_pos_bound};

verus! {

/// Partition `q` of `P` holds, in order, the rows whose position is `q`
/// modulo `P`: its `j`-th row is row `j * P + q`, and it stops where that
/// position passes the end.
pub open spec fn dealt(t: Table, p: nat, parts: Seq<Vec<Vec<Value>>>) -> bool {
    &&& parts.len() == p
    &&& forall|q: int| 0 <= q < p ==> (#[trigger] parts[q])@.len() * p + q >= t.num_rows()
    &&& forall|q: int, j: int|
        0 <= q < p && 0 <= j < parts[q]@.len() ==> #[trigger] slot(j, p as int, q) < t.num_rows()
    &&& forall|q: int, j: int|
        0 <= q < p && 0 <= j < parts[q]@.len() ==> row_cells(#[trigger] parts[q]@[j]) == row_cells(
            t.rows@[slot(j, p as int, q)],
        )
}

/// The position of the `j`-th row of partition `q` of `p`.
pub open spec fn slot(j: int, p: int, q: int) -> int {
    j * p + q
}

/// Deals the rows of `plan` out to `partitions` partitions, round robin.
pub fn execute_plan(plan: &Table, partitions: usize) -> (r: Vec<Vec<Vec<Value>>>)
    requires
        partitions >= 1,
    ensures
        dealt(*plan, partitions as nat, r@),
{
    let n = plan.rows.len();
    let ghost pp = partitions as int;
    let mut parts: Vec<Vec<Vec<Value>>> = Vec::new();
    let mut q: usize = 0;
    while q < partitions
        invariant
            n == plan.rows@.len(),
            pp == partitions,
            partitions >= 1,
            q <= partitions,
            parts@.len() == q,
            forall|a: int| 0 <= a < q ==> (#[trigger] parts@[a])@.len() * pp + a >= n,
            forall|a: int, j: int| 0 <= a < q && 0 <= j < parts@[a]@.len() ==> #[trigger] slot(j, pp, a) < n,
            forall|a: int, j: int|
                0 <= a < q && 0 <= j < parts@[a]@.len() ==> row_cells(#[trigger] parts@[a]@[j]) == row_cells(
                    plan.rows@[slot(j, pp, a)],
                ),
        decreases partitions - q,
    {
        let mut part: Vec<Vec<Value>> = Vec::new();
        let mut i: usize = q;
        let mut more = q < n;
        while more
            invariant
                n == plan.rows@.len(),
                pp == partitions,
                partitions >= 1,
                q < partitions,
                more ==> i == part@.len() * pp + q && i < n,
                !more ==> part@.len() * pp + q >= n,
                forall|b: int| 0 <= b < part@.len() ==> #[trigger] slot(b, pp, q as int) < n,
                forall|b: int|
                    0 <= b < part@.len() ==> row_cells(#[trigger] part@[b]) == row_cells(
                        plan.rows@[slot(b, pp, q as int)],
                    ),
            decreases if more {
                n - i
            } else {
                0
            },
        {
            let ghost j = part@.len() as int;
            let ghost before = part@;
            let ghost i0 = i;
            part.push(copy_row(&plan.rows[i]));
            proof {
                assert(row_cells(part@[j]) =~= row_cells(plan.rows@[i as int]));
                assert((j + 1) * pp == j * pp + pp) by (nonlinear_arith);
                assert(j * pp <= (j + 1) * pp) by (nonlinear_arith)
                    requires
                        pp >= 1,
                ;
            }
            if n - i > partitions {
                i = i + partitions;
            } else {
                more = false;
            }
            proof {
                assert forall|b: int|
                    0 <= b < part@.len() implies slot(b, pp, q as int) < n && row_cells(#[trigger] part@[b])
                    == row_cells(plan.rows@[slot(b, pp, q as int)]) by {
                    if b < j {
                        assert(part@[b] == before[b]);
                    } else {
                        assert(slot(b, pp, q as int) == i0 as int);
                    }
                }
            }
        }
        let ghost done = part;
        parts.push(part);
        proof {
            assert forall|a: int, j: int| 0 <= a < q + 1 && 0 <= j < parts@[a]@.len() implies #[trigger] slot(
                j,
                pp,
                a,
            ) < n by {
                if a == q {
                    assert(parts@[a] == done);
                }
            }
            assert forall|a: int, j: int|
                0 <= a < q + 1 && 0 <= j < parts@[a]@.len() implies row_cells(#[trigger] parts@[a]@[j])
                == row_cells(plan.rows@[slot(j, pp, a)]) by {
                if a == q {
                    assert(parts@[a] == done);
                }
            }
        }
        q = q + 1;
    }
    parts
}

/// `out` holds rows taken from the partitions, `src[i]` naming where row `i`
/// came from: partition `src[i].0`, position `src[i].1`. Each partition has
/// given exactly its first `taken[q]` rows, each once, in their order.
pub open spec fn drawn(
    parts: Seq<Vec<Vec<Value>>>,
    out: Seq<Vec<Value>>,
    src: Seq<(usize, usize)>,
    taken: Seq<usize>,
) -> bool {
    &&& taken.len() == parts.len()
    &&& out.len() == src.len()
    &&& forall|q: int| 0 <= q < parts.len() ==> #[trigger] taken[q] <= parts[q]@.len()
    &&& forall|i: int|
        0 <= i < src.len() ==> (#[trigger] src[i]).0 < parts.len() && src[i].1 < taken[src[i].0 as int]
    &&& forall|i: int|
        0 <= i < src.len() ==> row_cells(#[trigger] out[i]) == row_cells(parts[src[i].0 as int]@[src[i].1 as int])
    &&& forall|i: int, k: int|
        0 <= i < k < src.len() && (#[trigger] src[i]).0 == (#[trigger] src[k]).0 ==> src[i].1 < src[k].1
    &&& forall|q: int, j: int| 0 <= q < parts.len() && 0 <= j < taken[q] ==> #[trigger] came_out(src, q, j)
}

/// Whether row `j` of partition `q` is among the rows drawn.
pub open spec fn came_out(src: Seq<(usize, usize)>, q: int, j: int) -> bool {
    exists|i: int| 0 <= i < src.len() && #[trigger] src[i] == (q as usize, j as usize)
}

/// `out` holds every row of every partition exactly once, `src` naming
/// where each came from, and the rows of each partition in their order.
pub open spec fn merged(parts: Seq<Vec<Vec<Value>>>, out: Seq<Vec<Value>>, src: Seq<(usize, usize)>) -> bool {
    &&& out.len() == src.len()
    &&& forall|i: int|
        0 <= i < src.len() ==> (#[trigger] src[i]).0 < parts.len() && src[i].1 < parts[src[i].0 as int]@.len()
    &&& forall|i: int|
        0 <= i < src.len() ==> row_cells(#[trigger] out[i]) == row_cells(parts[src[i].0 as int]@[src[i].1 as int])
    &&& forall|i: int, k: int|
        0 <= i < k < src.len() && (#[trigger] src[i]).0 == (#[trigger] src[k]).0 ==> src[i].1 < src[k].1
    &&& forall|q: int, j: int| 0 <= q < parts.len() && 0 <= j < parts[q]@.len() ==> #[trigger] came_out(src, q, j)
}

/// Takes the next row of partition `q`.
fn take_next(
    parts: &Vec<Vec<Vec<Value>>>,
    q: usize,
    out: &mut Vec<Vec<Value>>,
    src: &mut Vec<(usize, usize)>,
    taken: &mut Vec<usize>,
)
    requires
        drawn(parts@, old(out)@, old(src)@, old(taken)@),
        q < parts@.len(),
        old(taken)@[q as int] < parts@[q as int]@.len(),
    ensures
        drawn(parts@, final(out)@, final(src)@, final(taken)@),
        final(taken)@ == old(taken)@.update(q as int, (old(taken)@[q as int] + 1) as usize),
        final(src)@.len() == old(src)@.len() + 1,
{
    let j = taken[q];
    let len = parts[q].len();
    assert(j < len);
    out.push(copy_row(&parts[q][j]));
    src.push((q, j));
    taken.set(q, j + 1);
    proof {
        let o = old(src)@;
        let s = src@;
        let t = taken@;
        assert(row_cells(out@[o.len() as int]) =~= row_cells(parts@[q as int]@[j as int]));
        assert forall|i: int| 0 <= i < s.len() implies row_cells(#[trigger] out@[i]) == row_cells(
            parts@[s[i].0 as int]@[s[i].1 as int],
        ) by {
            if i < o.len() {
                assert(s[i] == o[i]);
                assert(out@[i] == old(out)@[i]);
            }
        }
        assert forall|i: int| 0 <= i < s.len() implies (#[trigger] s[i]).0 < parts@.len() && s[i].1 < t[s[i].0 as int] by {
            if i < o.len() {
                assert(s[i] == o[i]);
            }
        }
        assert forall|i: int, k: int| 0 <= i < k < s.len() && (#[trigger] s[i]).0 == (#[trigger] s[k]).0 implies s[i].1
            < s[k].1 by {
            assert(s[i] == o[i]);
            if k < o.len() {
                assert(s[k] == o[k]);
            }
        }
        assert forall|a: int, b: int| 0 <= a < parts@.len() && 0 <= b < t[a] implies #[trigger] came_out(s, a, b) by {
            if a == q && b == j {
                assert(s[o.len() as int] == (a as usize, b as usize));
            } else {
                assert(came_out(o, a, b));
                let i = choose|i: int| 0 <= i < o.len() && #[trigger] o[i] == (a as usize, b as usize);
                assert(s[i] == o[i]);
            }
        }
    }
}

/// Collects the rows of all partitions into one stream. `arrivals` is the
/// order in which partitions delivered, one entry per delivered row; an entry
/// that names no partition, or one already drained, is passed over, and what
/// no entry asked for is drained at the end, partition by partition. Every
/// row of every partition comes out exactly once, with its source beside it,
/// and the rows of each partition keep their order.
pub fn merge(parts: &Vec<Vec<Vec<Value>>>, arrivals: &Vec<usize>) -> (r: (Vec<Vec<Value>>, Vec<(usize, usize)>))
    ensures
        merged(parts@, r.0@, r.1@),
{
    let mut out: Vec<Vec<Value>> = Vec::new();
    let mut src: Vec<(usize, usize)> = Vec::new();
    let mut taken: Vec<usize> = Vec::new();
    let mut q: usize = 0;
    while q < parts.len()
        invariant
            q <= parts@.len(),
            taken@.len() == q,
            forall|a: int| 0 <= a < q ==> #[trigger] taken@[a] == 0,
            out@.len() == 0,
            src@.len() == 0,
        decreases parts@.len() - q,
    {
        taken.push(0);
        q = q + 1;
    }
    let mut a: usize = 0;
    while a < arrivals.len()
        invariant
            drawn(parts@, out@, src@, taken@),
        decreases arrivals@.len() - a,
    {
        let p = arrivals[a];
        if p < parts.len() && taken[p] < parts[p].len() {
            take_next(parts, p, &mut out, &mut src, &mut taken);
        }
        a = a + 1;
    }
    let mut q: usize = 0;
    while q < parts.len()
        invariant
            drawn(parts@, out@, src@, taken@),
            q <= parts@.len(),
            forall|b: int| 0 <= b < q ==> #[trigger] taken@[b] == parts@[b]@.len(),
        decreases parts@.len() - q,
    {
        while taken[q] < parts[q].len()
            invariant
                drawn(parts@, out@, src@, taken@),
                q < parts@.len(),
                forall|b: int| 0 <= b < q ==> #[trigger] taken@[b] == parts@[b]@.len(),
            decreases parts@[q as int]@.len() - taken@[q as int],
        {
            take_next(parts, q, &mut out, &mut src, &mut taken);
        }
        q = q + 1;
    }
    proof {
        assert forall|c: int, j: int| 0 <= c < parts@.len() && 0 <= j < parts@[c]@.len() implies #[trigger] came_out(
            src@,
            c,
            j,
        ) by {
            assert(taken@[c] == parts@[c]@.len());
        }
    }
    (out, src)
}

/// Row `i` of `t` is in `out`, taken from position `i / p` of partition `i % p`.
pub open spec fn delivered(t: Table, p: int, out: Seq<Vec<Value>>, src: Seq<(usize, usize)>, i: int) -> bool {
    exists|k: int|
        0 <= k < out.len() && #[trigger] src[k] == ((i % p) as usize, (i / p) as usize) && row_cells(out[k])
            == row_cells(t.rows@[i])
}

/// Dealing a plan's rows to partitions and merging them back, in whatever
/// order the partitions delivered, loses and repeats no row: row `i` of the
/// plan comes out once, from position `i / P` of partition `i % P`, and no
/// two rows come from the same place.
pub proof fn lemma_each_row_once(
    t: Table,
    p: nat,
    parts: Seq<Vec<Vec<Value>>>,
    out: Seq<Vec<Value>>,
    src: Seq<(usize, usize)>,
)
    requires
        1 <= p <= usize::MAX,
        dealt(t, p, parts),
        merged(parts, out, src),
    ensures
        forall|i: int| 0 <= i < t.num_rows() ==> #[trigger] delivered(t, p as int, out, src, i),
        forall|a: int, b: int| 0 <= a < b < src.len() ==> #[trigger] src[a] != #[trigger] src[b],
{
    let pp = p as int;
    assert forall|i: int| 0 <= i < t.num_rows() implies #[trigger] delivered(t, pp, out, src, i) by {
        let q = i % pp;
        let j = i / pp;
        lemma_fundamental_div_mod(i, pp);
        lemma_mod_pos_bound(i, pp);
        assert(j >= 0) by (nonlinear_arith)
            requires
                i >= 0,
                pp >= 1,
                j == i / pp,
        ;
        let len = parts[q]@.len() as int;
        assert(len * pp + q >= t.num_rows());
        assert(j < len) by (nonlinear_arith)
            requires
                len * pp + q >= t.num_rows(),
                i < t.num_rows(),
                i == pp * j + q,
                pp >= 1,
        ;
        assert(came_out(src, q, j));
        let k = choose|k: int| 0 <= k < src.len() && #[trigger] src[k] == (q as usize, j as usize);
        assert(slot(j, pp, q) == i) by (nonlinear_arith)
            requires
                i == pp * j + q,
        ;
        assert(parts[q]@.len() == parts[q].len());
        assert(src[k].0 as int == q && src[k].1 as int == j);
        assert(row_cells(out[k]) == row_cells(parts[q]@[j]));
    }
    assert forall|a: int, b: int| 0 <= a < b < src.len() implies #[trigger] src[a] != #[trigger] src[b] by {
        if src[a] == src[b] {
            assert(src[a].1 < src[b].1);
        }
    }
}

/// Row `k` of one merge appears in the other, from the same place and with
/// the same cells.
pub open spec fn matched_in(
    out: Seq<Vec<Value>>,
    src: Seq<(usize, usize)>,
    out2: Seq<Vec<Value>>,
    src2: Seq<(usize, usize)>,
    k: int,
) -> bool {
    exists|k2: int| 0 <= k2 < src2.len() && #[trigger] src2[k2] == src[k] && row_cells(out2[k2]) == row_cells(out[k])
}

/// Two merges of the same partitions, whatever the two arrival orders, hold
/// the same rows: each row of either comes, from the same place and with the
/// same cells, once in the other.
pub proof fn lemma_runs_agree(
    parts: Seq<Vec<Vec<Value>>>,
    out1: Seq<Vec<Value>>,
    src1: Seq<(usize, usize)>,
    out2: Seq<Vec<Value>>,
    src2: Seq<(usize, usize)>,
)
    requires
        merged(parts, out1, src1),
        merged(parts, out2, src2),
    ensures
        forall|k: int| 0 <= k < out1.len() ==> #[trigger] matched_in(out1, src1, out2, src2, k),
        forall|k: int| 0 <= k < out2.len() ==> #[trigger] matched_in(out2, src2, out1, src1, k),
        forall|a: int, b: int| 0 <= a < b < src1.len() ==> #[trigger] src1[a] != #[trigger] src1[b],
        forall|a: int, b: int| 0 <= a < b < src2.len() ==> #[trigger] src2[a] != #[trigger] src2[b],
{
    assert forall|k: int| 0 <= k < out1.len() implies #[trigger] matched_in(out1, src1, out2, src2, k) by {
        lemma_found(parts, src1[k], out2, src2);
    }
    assert forall|k: int| 0 <= k < out2.len() implies #[trigger] matched_in(out2, src2, out1, src1, k) by {
        lemma_found(parts, src2[k], out1, src1);
    }
    assert forall|a: int, b: int| 0 <= a < b < src1.len() implies #[trigger] src1[a] != #[trigger] src1[b] by {
        if src1[a] == src1[b] {
            assert(src1[a].1 < src1[b].1);
        }
    }
    assert forall|a: int, b: int| 0 <= a < b < src2.len() implies #[trigger] src2[a] != #[trigger] src2[b] by {
        if src2[a] == src2[b] {
            assert(src2[a].1 < src2[b].1);
        }
    }
}

proof fn lemma_found(parts: Seq<Vec<Vec<Value>>>, at: (usize, usize), out: Seq<Vec<Value>>, src: Seq<(usize, usize)>)
    requires
        merged(parts, out, src),
        at.0 < parts.len(),
        at.1 < parts[at.0 as int]@.len(),
    ensures
        exists|k: int| 0 <= k < src.len() && #[trigger] src[k] == at && row_cells(out[k]) == row_cells(
            parts[at.0 as int]@[at.1 as int],
        ),
{
    assert(came_out(src, at.0 as int, at.1 as int));
    let k = choose|k: int| 0 <= k < src.len() && #[trigger] src[k] == (at.0 as int as usize, at.1 as int as usize);
    assert(src[k] == at);
}

/// A batch that a partition failed to produce.
#[derive(Clone, Copy, Debug, PartialEq, Eq, Structural)]
pub struct ExecError {
    pub partition: usize,
}

/// The rows drawn from the batches from `b` on, at most `left` of them:
/// batches are pulled in order until they run out or the budget is met, and
/// a failed batch met before that ends the drain with its error.
pub open spec fn drain(batches: Seq<Result<Vec<Vec<Value>>, ExecError>>, b: int, left: nat) -> Result<
    Seq<Seq<Cell>>,
    ExecError,
>
    decreases batches.len() - b,
{
    if b < 0 || b >= batches.len() || left == 0 {
        Ok(seq![])
    } else {
        match batches[b] {
            Err(e) => Err(e),
            Ok(rows) => {
                let cells = rows@.map_values(|r: Vec<Value>| row_cells(r));
                if cells.len() >= left {
                    Ok(cells.subrange(0, left as int))
                } else {
                    match drain(batches, b + 1, (left - cells.len()) as nat) {
                        Ok(rest) => Ok(cells + rest),
                        Err(e) => Err(e),
                    }
                }
            },
        }
    }
}

/// Pulls at most `limit` rows from the batches, in order; the first failed
/// batch met before the budget is reached is returned instead.
pub fn collect_batches(batches: &Vec<Result<Vec<Vec<Value>>, ExecError>>, limit: usize) -> (r: Result<
    Vec<Vec<Value>>,
    ExecError,
>)
    ensures
        r matches Err(e) ==> drain(batches@, 0, limit as nat) == Err::<Seq<Seq<Cell>>, ExecError>(e),
        r matches Ok(rows) ==> drain(batches@, 0, limit as nat) == Ok::<Seq<Seq<Cell>>, ExecError>(
            rows@.map_values(|x: Vec<Value>| row_cells(x)),
        ),
{
    let mut out: Vec<Vec<Value>> = Vec::new();
    let mut left: usize = limit;
    let mut b: usize = 0;
    while b < batches.len() && left > 0
        invariant
            b <= batches@.len(),
            drain(batches@, 0, limit as nat) == match drain(batches@, b as int, left as nat) {
                Ok(rest) => Ok(out@.map_values(|x: Vec<Value>| row_cells(x)) + rest),
                Err(e) => Err::<Seq<Seq<Cell>>, ExecError>(e),
            },
        decreases batches@.len() - b,
    {
        match &batches[b] {
            Err(e) => {
                return Err(*e);
            },
            Ok(rows) => {
                let ghost start = out@.map_values(|x: Vec<Value>| row_cells(x));
                let ghost cells = rows@.map_values(|r: Vec<Value>| row_cells(r));
                let ghost left0 = left;
                let mut i: usize = 0;
                while i < rows.len() && left > 0
                    invariant
                        i <= rows@.len(),
                        cells == rows@.map_values(|r: Vec<Value>| row_cells(r)),
                        left as int == left0 - i,
                        out@.map_values(|x: Vec<Value>| row_cells(x)) == start + cells.subrange(0, i as int),
                    decreases rows@.len() - i,
                {
                    let ghost before = out@;
                    let row = copy_row(&rows[i]);
                    assert(row_cells(row) =~= row_cells(rows@[i as int]));
                    out.push(row);
                    assert(out@.map_values(|x: Vec<Value>| row_cells(x)) =~= before.map_values(
                        |x: Vec<Value>| row_cells(x),
                    ).push(cells[i as int]));
                    i = i + 1;
                    left = left - 1;
                    assert(out@.map_values(|x: Vec<Value>| row_cells(x)) =~= start + cells.subrange(0, i as int));
                }
                proof {
                    let bb = b as int;
                    assert(batches@[bb] == Ok::<Vec<Vec<Value>>, ExecError>(*rows));
                    let now = out@.map_values(|x: Vec<Value>| row_cells(x));
                    if left == 0 {
                        assert(cells.len() >= left0);
                        assert(drain(batches@, bb, left0 as nat) == Ok::<Seq<Seq<Cell>>, ExecError>(
                            cells.subrange(0, left0 as int),
                        ));
                        assert(drain(batches@, bb + 1, 0) == Ok::<Seq<Seq<Cell>>, ExecError>(seq![]));
                        assert(now + seq![] =~= now);
                    } else {
                        assert(i == rows@.len());
                        assert(cells.subrange(0, i as int) =~= cells);
                        assert(cells.len() < left0);
                        match drain(batches@, bb + 1, left as nat) {
                            Ok(rest) => {
                                assert(start + (cells + rest) =~= now + rest);
                            },
                            Err(_) => {},
                        }
                    }
                }
            },
        }
        b = b + 1;
    }
    proof {
        assert(out@.map_values(|x: Vec<Value>| row_cells(x)) + seq![] =~= out@.map_values(
            |x: Vec<Value>| row_cells(x),
        ));
    }
    Ok(out)
}

/// Renders at most `limit` rows pulled from the batches under the schema
/// `fields`; a failed batch met before the budget is reached aborts the
/// rendering with its error, and no partial table is produced.
pub fn render_batches(fields: &Vec<Field>, batches: &Vec<Result<Vec<Vec<Value>>, ExecError>>, limit: usize) -> (r:
    Result<String, ExecError>)
    ensures
        r matches Err(e) ==> drain(batches@, 0, limit as nat) == Err::<Seq<Seq<Cell>>, ExecError>(e),
        r matches Ok(s) ==> exists|t: Table|
            schema_of(t.fields@) == schema_of(fields@) && drain(batches@, 0, limit as nat) == Ok::<
                Seq<Seq<Cell>>,
                ExecError,
            >(table_cells(t)) && s@ == table_text(t, limit as nat),
{
    let rows = collect_batches(batches, limit)?;
    let f = copy_fields(fields);
    let t = Table { fields: f, rows };
    assert(schema_of(t.fields@) =~= schema_of(fields@));
    Ok(render(&t, limit))
}

} // verus!
