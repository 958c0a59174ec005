//! The textual form of a table: a shape line, a name header, a type header,
//! a separator, one `|`-joined line per row, and a closing separator.
use vstd::prelude::*;
use crate::table::{Cell, DataType, ElemType, Field, Scalar, Table, Value, names_of, types_of};

verus! {

pub open spec fn digit_char(d: nat) -> char {
    seq!['0', '1', '2', '3', '4', '5', '6', '7', '8', '9'][d as int]
}

/// Decimal digits of `n`, without leading zeros.
pub open spec fn digits(n: nat) -> Seq<char>
    decreases n,
{
    if n < 10 {
        seq![digit_char(n)]
    } else {
        digits(n / 10).push(digit_char(n % 10))
    }
}

/// The last `w` decimal digits of `n`, padded with zeros.
pub open spec fn fixed_digits(n: nat, w: nat) -> Seq<char>
    decreases w,
{
    if w == 0 {
        seq![]
    } else {
        fixed_digits(n / 10, (w - 1) as nat).push(digit_char(n % 10))
    }
}

/// `n` with its last `w` decimal digits removed.
pub open spec fn drop_digits(n: nat, w: nat) -> nat
    decreases w,
{
    if w == 0 {
        n
    } else {
        drop_digits(n / 10, (w - 1) as nat)
    }
}

pub open spec fn abs(i: int) -> nat {
    if i < 0 {
        (-i) as nat
    } else {
        i as nat
    }
}

pub open spec fn sign_text(i: int) -> Seq<char> {
    if i < 0 {
        seq!['-']
    } else {
        seq![]
    }
}

pub open spec fn int_text(i: int) -> Seq<char> {
    sign_text(i) + digits(abs(i))
}

/// The decimal `m / 10^s`, with at least one digit after the point.
pub open spec fn dec_text(m: int, s: nat) -> Seq<char> {
    if s == 0 {
        int_text(m) + seq!['.', '0']
    } else {
        sign_text(m) + digits(drop_digits(abs(m), s)) + seq!['.'] + fixed_digits(abs(m), s)
    }
}

pub open spec fn scalar_text(s: Scalar) -> Seq<char> {
    match s {
        Scalar::Null => seq!['n', 'u', 'l', 'l'],
        Scalar::Int(i) => int_text(i as int),
        Scalar::Dec(m, k) => dec_text(m as int, k as nat),
        Scalar::Text(t) => t@,
    }
}

/// The parts joined by `sep`.
pub open spec fn join(parts: Seq<Seq<char>>, sep: Seq<char>) -> Seq<char>
    decreases parts.len(),
{
    if parts.len() == 0 {
        seq![]
    } else if parts.len() == 1 {
        parts[0]
    } else {
        join(parts.drop_last(), sep) + sep + parts.last()
    }
}

pub open spec fn cell_text(c: Cell) -> Seq<char> {
    match c {
        Cell::One(s) => scalar_text(s),
        Cell::Many(items) => seq!['['] + join(items.map_values(|x: Scalar| scalar_text(x)), seq![',', ' '])
            + seq![']'],
    }
}

pub open spec fn elem_type_text(e: ElemType) -> Seq<char> {
    match e {
        ElemType::Int64 => seq!['i', '6', '4'],
        ElemType::Float64 => seq!['f', '6', '4'],
        ElemType::Utf8 => seq!['s', 't', 'r'],
    }
}

pub open spec fn type_text(t: DataType) -> Seq<char> {
    match t {
        DataType::Int64 => elem_type_text(ElemType::Int64),
        DataType::Float64 => elem_type_text(ElemType::Float64),
        DataType::Utf8 => elem_type_text(ElemType::Utf8),
        DataType::List(e) => seq!['l', 'i', 's', 't', '['] + elem_type_text(e) + seq![']'],
    }
}

pub open spec fn row_text(row: Seq<Value>) -> Seq<char> {
    join(row.map_values(|v: Value| cell_text(v.model())), seq!['|']) + seq!['\n']
}

/// The first `n` rows, one line each.
pub open spec fn rows_text(rows: Seq<Vec<Value>>, n: nat) -> Seq<char>
    decreases n,
{
    if n == 0 {
        seq![]
    } else {
        rows_text(rows, (n - 1) as nat) + row_text(rows[n - 1]@)
    }
}

pub open spec fn min(a: nat, b: nat) -> nat {
    if a < b {
        a
    } else {
        b
    }
}

pub open spec fn separator() -> Seq<char> {
    seq!['-', '-', '-', '\n']
}

/// The first `limit` rows of `t`, rendered.
pub open spec fn table_text(t: Table, limit: nat) -> Seq<char> {
    let n = min(t.num_rows(), limit);
    seq!['s', 'h', 'a', 'p', 'e', ':', ' ', '('] + digits(n) + seq![',', ' '] + digits(t.num_cols())
        + seq![')', '\n'] + join(names_of(t.fields@), seq!['|']) + seq!['\n']
        + join(types_of(t.fields@).map_values(|d: DataType| type_text(d)), seq!['|']) + seq!['\n']
        + separator() + rows_text(t.rows@, n) + separator()
}

fn digit_str(d: u64) -> (r: &'static str)
    requires
        d < 10,
    ensures
        r@ == seq![digit_char(d as nat)],
{
    proof {
        reveal_strlit("0");
        reveal_strlit("1");
        reveal_strlit("2");
        reveal_strlit("3");
        reveal_strlit("4");
        reveal_strlit("5");
        reveal_strlit("6");
        reveal_strlit("7");
        reveal_strlit("8");
        reveal_strlit("9");
    }
    if d == 0 {
        "0"
    } else if d == 1 {
        "1"
    } else if d == 2 {
        "2"
    } else if d == 3 {
        "3"
    } else if d == 4 {
        "4"
    } else if d == 5 {
        "5"
    } else if d == 6 {
        "6"
    } else if d == 7 {
        "7"
    } else if d == 8 {
        "8"
    } else {
        "9"
    }
}

/// Appends the decimal digits of `n`.
pub fn push_digits(out: &mut String, n: u64)
    ensures
        final(out)@ == old(out)@ + digits(n as nat),
    decreases n,
{
    if n >= 10 {
        push_digits(out, n / 10);
    }
    out.append(digit_str(n % 10));
    assert(final(out)@ =~= old(out)@ + digits(n as nat));
}

/// Appends the last `w` digits of `n`, padded with zeros.
fn push_fixed_digits(out: &mut String, n: u64, w: u8)
    ensures
        final(out)@ == old(out)@ + fixed_digits(n as nat, w as nat),
    decreases w,
{
    if w > 0 {
        push_fixed_digits(out, n / 10, w - 1);
        out.append(digit_str(n % 10));
        assert(final(out)@ =~= old(out)@ + fixed_digits(n as nat, w as nat));
    }
}

fn magnitude(i: i64) -> (r: u64)
    ensures
        r as nat == abs(i as int),
{
    if i < 0 {
        (0i128 - i as i128) as u64
    } else {
        i as u64
    }
}

fn push_sign(out: &mut String, i: i64)
    ensures
        final(out)@ == old(out)@ + sign_text(i as int),
{
    if i < 0 {
        proof {
            reveal_strlit("-");
        }
        out.append("-");
    } else {
        assert(old(out)@ + sign_text(i as int) =~= old(out)@);
    }
}

/// Appends the text of a scalar.
pub fn push_scalar(out: &mut String, s: &Scalar)
    ensures
        final(out)@ == old(out)@ + scalar_text(*s),
{
    match s {
        Scalar::Null => {
            proof {
                reveal_strlit("null");
            }
            out.append("null");
        },
        Scalar::Int(i) => {
            push_sign(out, *i);
            push_digits(out, magnitude(*i));
            assert(final(out)@ =~= old(out)@ + scalar_text(*s));
        },
        Scalar::Dec(m, k) => {
            let a = magnitude(*m);
            push_sign(out, *m);
            if *k == 0 {
                push_digits(out, a);
                proof {
                    reveal_strlit(".0");
                }
                out.append(".0");
            } else {
                let mut q: u64 = a;
                let mut j: u8 = 0;
                while j < *k
                    invariant
                        j <= *k,
                        drop_digits(q as nat, (*k - j) as nat) == drop_digits(a as nat, *k as nat),
                    decreases *k - j,
                {
                    q = q / 10;
                    j = j + 1;
                }
                push_digits(out, q);
                proof {
                    reveal_strlit(".");
                }
                out.append(".");
                push_fixed_digits(out, a, *k);
            }
            assert(final(out)@ =~= old(out)@ + scalar_text(*s));
        },
        Scalar::Text(t) => {
            out.append(t.as_str());
        },
    }
}

/// Appends the text of a cell.
pub fn push_value(out: &mut String, v: &Value)
    ensures
        final(out)@ == old(out)@ + cell_text(v.model()),
{
    match v {
        Value::One(s) => push_scalar(out, s),
        Value::Many(items) => {
            let ghost start = out@;
            let ghost texts = items@.map_values(|x: Scalar| scalar_text(x));
            proof {
                reveal_strlit("[");
            }
            out.append("[");
            assert("["@ =~= seq!['[']);
            let mut k: usize = 0;
            while k < items.len()
                invariant
                    k <= items@.len(),
                    texts == items@.map_values(|x: Scalar| scalar_text(x)),
                    out@ == start + seq!['['] + join(texts.subrange(0, k as int), seq![',', ' ']),
                decreases items@.len() - k,
            {
                proof {
                    assert(texts.subrange(0, k + 1).drop_last() =~= texts.subrange(0, k as int));
                }
                if k > 0 {
                    proof {
                        reveal_strlit(", ");
                    }
                    assert(", "@ =~= seq![',', ' ']);
                    out.append(", ");
                }
                let ghost mid = out@;
                push_scalar(out, &items[k]);
                assert(out@ == mid + texts[k as int]);
                proof {
                    let next = texts.subrange(0, k + 1);
                    assert(next.last() == texts[k as int]);
                    if k == 0 {
                        assert(join(next, seq![',', ' ']) == texts[0]);
                    } else {
                        assert(join(next, seq![',', ' ']) == join(texts.subrange(0, k as int), seq![',', ' '])
                            + seq![',', ' '] + texts[k as int]);
                    }
                    assert(out@ =~= start + seq!['['] + join(next, seq![',', ' ']));
                }
                k = k + 1;
            }
            assert(texts.subrange(0, k as int) =~= texts);
            proof {
                reveal_strlit("]");
            }
            assert("]"@ =~= seq![']']);
            out.append("]");
        },
    }
}

fn push_elem_type(out: &mut String, e: ElemType)
    ensures
        final(out)@ == old(out)@ + elem_type_text(e),
{
    proof {
        reveal_strlit("i64");
        reveal_strlit("f64");
        reveal_strlit("str");
    }
    match e {
        ElemType::Int64 => out.append("i64"),
        ElemType::Float64 => out.append("f64"),
        ElemType::Utf8 => out.append("str"),
    }
    assert(final(out)@ =~= old(out)@ + elem_type_text(e));
}

fn push_type(out: &mut String, t: DataType)
    ensures
        final(out)@ == old(out)@ + type_text(t),
{
    match t {
        DataType::Int64 => push_elem_type(out, ElemType::Int64),
        DataType::Float64 => push_elem_type(out, ElemType::Float64),
        DataType::Utf8 => push_elem_type(out, ElemType::Utf8),
        DataType::List(e) => {
            proof {
                reveal_strlit("list[");
                reveal_strlit("]");
            }
            out.append("list[");
            push_elem_type(out, e);
            out.append("]");
            assert(final(out)@ =~= old(out)@ + type_text(t));
        },
    }
}

proof fn lemma_join_step(parts: Seq<Seq<char>>, k: int, sep: Seq<char>)
    requires
        0 <= k < parts.len(),
    ensures
        k == 0 ==> join(parts.subrange(0, k + 1), sep) == parts[k],
        k > 0 ==> join(parts.subrange(0, k + 1), sep) == join(parts.subrange(0, k), sep) + sep + parts[k],
{
    assert(parts.subrange(0, k + 1).drop_last() =~= parts.subrange(0, k));
}

/// Appends the column names joined by `|`.
fn push_names(out: &mut String, fields: &Vec<Field>)
    ensures
        final(out)@ == old(out)@ + join(names_of(fields@), seq!['|']),
{
    let ghost start = out@;
    let ghost parts = names_of(fields@);
    let mut k: usize = 0;
    while k < fields.len()
        invariant
            k <= fields@.len(),
            parts == names_of(fields@),
            out@ == start + join(parts.subrange(0, k as int), seq!['|']),
        decreases fields@.len() - k,
    {
        proof {
            lemma_join_step(parts, k as int, seq!['|']);
            reveal_strlit("|");
        }
        if k > 0 {
            assert("|"@ =~= seq!['|']);
            out.append("|");
        }
        out.append(fields[k].name.as_str());
        k = k + 1;
        assert(out@ =~= start + join(parts.subrange(0, k as int), seq!['|']));
    }
    assert(parts.subrange(0, k as int) =~= parts);
}

/// Appends the column types joined by `|`.
fn push_types(out: &mut String, fields: &Vec<Field>)
    ensures
        final(out)@ == old(out)@ + join(types_of(fields@).map_values(|d: DataType| type_text(d)), seq!['|']),
{
    let ghost start = out@;
    let ghost parts = types_of(fields@).map_values(|d: DataType| type_text(d));
    let mut k: usize = 0;
    while k < fields.len()
        invariant
            k <= fields@.len(),
            parts == types_of(fields@).map_values(|d: DataType| type_text(d)),
            out@ == start + join(parts.subrange(0, k as int), seq!['|']),
        decreases fields@.len() - k,
    {
        proof {
            lemma_join_step(parts, k as int, seq!['|']);
            reveal_strlit("|");
        }
        if k > 0 {
            assert("|"@ =~= seq!['|']);
            out.append("|");
        }
        push_type(out, fields[k].dtype);
        k = k + 1;
        assert(out@ =~= start + join(parts.subrange(0, k as int), seq!['|']));
    }
    assert(parts.subrange(0, k as int) =~= parts);
}

/// Appends one row's cells joined by `|`, and a newline.
fn push_row(out: &mut String, row: &Vec<Value>)
    ensures
        final(out)@ == old(out)@ + row_text(row@),
{
    let ghost start = out@;
    let ghost parts = row@.map_values(|v: Value| cell_text(v.model()));
    let mut k: usize = 0;
    while k < row.len()
        invariant
            k <= row@.len(),
            parts == row@.map_values(|v: Value| cell_text(v.model())),
            out@ == start + join(parts.subrange(0, k as int), seq!['|']),
        decreases row@.len() - k,
    {
        proof {
            lemma_join_step(parts, k as int, seq!['|']);
            reveal_strlit("|");
        }
        if k > 0 {
            assert("|"@ =~= seq!['|']);
            out.append("|");
        }
        push_value(out, &row[k]);
        k = k + 1;
        assert(out@ =~= start + join(parts.subrange(0, k as int), seq!['|']));
    }
    assert(parts.subrange(0, k as int) =~= parts);
    proof {
        reveal_strlit("\n");
    }
    out.append("\n");
    assert(final(out)@ =~= old(out)@ + row_text(row@));
}

/// Renders at most `limit` rows of `t`, with its shape and headers.
pub fn render(t: &Table, limit: usize) -> (r: String)
    ensures
        r@ == table_text(*t, limit as nat),
{
    let n: usize = if t.rows.len() < limit {
        t.rows.len()
    } else {
        limit
    };
    proof {
        reveal_strlit("shape: (");
        reveal_strlit(", ");
        reveal_strlit(")\n");
        reveal_strlit("\n");
    }
    let mut out = String::new();
    out.append("shape: (");
    push_digits(&mut out, n as u64);
    out.append(", ");
    push_digits(&mut out, t.fields.len() as u64);
    out.append(")\n");
    push_names(&mut out, &t.fields);
    out.append("\n");
    push_types(&mut out, &t.fields);
    out.append("\n");
    out.append("---\n");
    let ghost head = out@;
    let mut i: usize = 0;
    while i < n
        invariant
            i <= n,
            n <= t.rows@.len(),
            out@ == head + rows_text(t.rows@, i as nat),
        decreases n - i,
    {
        push_row(&mut out, &t.rows[i]);
        i = i + 1;
        assert(out@ =~= head + rows_text(t.rows@, i as nat));
    }
    proof {
        reveal_strlit("---\n");
    }
    out.append("---\n");
    assert(out@ =~= table_text(*t, limit as nat));
    out
}

} // verus!
