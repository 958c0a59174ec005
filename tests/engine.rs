use dply::engine::io::{collect_batches, execute_plan, merge, render_batches, ExecError};
use dply::interpreter;
use dply::table::{DataType, ElemType, Field, Scalar, Table, Value};
use dply::text::render;
use dply::typing::pipeline;
use dply::unnest::{unnest, UnnestError};
use dply::verbs::{ErrorKind, Verb, VerbName};

fn numbers(n: i64) -> Table {
    Table {
        fields: vec![Field { name: "n".to_string(), dtype: DataType::Int64 }],
        rows: (0..n).map(|i| vec![Value::One(Scalar::Int(i))]).collect(),
    }
}

fn lists() -> Table {
    let ints = |v: &[i64]| Value::Many(v.iter().map(|i| Scalar::Int(*i)).collect());
    Table {
        fields: vec![
            Field { name: "shape_id".to_string(), dtype: DataType::Int64 },
            Field { name: "ints".to_string(), dtype: DataType::List(ElemType::Int64) },
        ],
        rows: vec![
            vec![Value::One(Scalar::Int(1)), ints(&[3, 88, 94])],
            vec![Value::One(Scalar::Int(2)), ints(&[73])],
            vec![Value::One(Scalar::Int(3)), Value::One(Scalar::Null)],
            vec![Value::One(Scalar::Int(4)), ints(&[])],
        ],
    }
}

fn lines_of(out: &str) -> usize {
    out.lines().count()
}

#[test]
fn head_defaults_to_ten_rows() {
    let out = interpreter::eval(&vec![Verb::Source(numbers(25)), Verb::Head(None)]).unwrap();
    assert_eq!(out.len(), 1);
    assert!(out[0].starts_with("shape: (10, 1)\n"));
    assert_eq!(lines_of(&out[0]), 10 + 5);
}

#[test]
fn head_caps_at_table_size() {
    let out = interpreter::eval(&vec![Verb::Source(numbers(3)), Verb::Head(Some(7))]).unwrap();
    assert_eq!(out[0], "shape: (3, 1)\nn\ni64\n---\n0\n1\n2\n---\n");
    let out = interpreter::eval(&vec![Verb::Source(numbers(3)), Verb::Head(Some(0))]).unwrap();
    assert_eq!(out[0], "shape: (0, 1)\nn\ni64\n---\n---\n");
}

#[test]
fn head_inside_chain_limits_rows() {
    let out = interpreter::eval(&vec![Verb::Source(numbers(20)), Verb::Head(Some(4)), Verb::Show]).unwrap();
    assert_eq!(out[0], "shape: (4, 1)\nn\ni64\n---\n0\n1\n2\n3\n---\n");
}

#[test]
fn group_by_needs_summarize() {
    let chain = vec![Verb::Source(numbers(5)), Verb::GroupBy(vec!["n".to_string()]), Verb::Show];
    let err = interpreter::eval(&chain).unwrap_err();
    assert_eq!((err.verb, err.kind), (VerbName::Show, ErrorKind::MustSummarize));
    assert_eq!(err.message(), "show error: must call summarize after a group_by");
    assert_eq!(pipeline(&chain), Err(err));

    let chain = vec![Verb::Source(numbers(5)), Verb::GroupBy(vec!["n".to_string()])];
    let err = interpreter::eval(&chain).unwrap_err();
    assert_eq!(err.message(), "group_by error: must call summarize after a group_by");
}

#[test]
fn summarize_counts_grouped_rows() {
    let chain = vec![
        Verb::Source(numbers(6)),
        Verb::GroupBy(vec!["n".to_string()]),
        Verb::Summarize("count".to_string()),
        Verb::Show,
    ];
    assert_eq!(pipeline(&chain), Ok(()));
    let out = interpreter::eval(&chain).unwrap();
    assert_eq!(out[0], "shape: (1, 1)\ncount\ni64\n---\n6\n---\n");
}

#[test]
fn summarize_without_group_by_fails() {
    let chain = vec![Verb::Source(numbers(2)), Verb::Summarize("count".to_string())];
    let err = interpreter::eval(&chain).unwrap_err();
    assert_eq!(err.message(), "summarize error: must call group_by before summarize");
}

#[test]
fn group_by_unknown_column_fails() {
    let chain = vec![Verb::Source(numbers(2)), Verb::GroupBy(vec!["m".to_string()])];
    assert_eq!(pipeline(&chain).unwrap_err().message(), "group_by error: unknown column");
}

#[test]
fn unnest_ints_emits_one_row_per_element() {
    let out = interpreter::eval(&vec![Verb::Source(lists()), Verb::Unnest("ints".to_string()), Verb::Head(None)]).unwrap();
    assert_eq!(
        out[0],
        "shape: (5, 2)\nshape_id|ints\ni64|i64\n---\n1|3\n1|88\n1|94\n2|73\n3|null\n---\n"
    );
}

#[test]
fn unnest_errors() {
    let t = lists();
    assert_eq!(unnest(&t, "shape_id").unwrap_err(), UnnestError::NotAList);
    assert_eq!(unnest(&t, "points").unwrap_err(), UnnestError::UnknownColumn);
    let err = interpreter::eval(&vec![Verb::Source(lists()), Verb::Unnest("shape_id".to_string())]).unwrap_err();
    assert_eq!(err.message(), "unnest error: column is not a list");
}

#[test]
fn unnest_str_keeps_siblings() {
    let t = Table {
        fields: vec![
            Field { name: "id".to_string(), dtype: DataType::Utf8 },
            Field { name: "tags".to_string(), dtype: DataType::List(ElemType::Utf8) },
            Field { name: "w".to_string(), dtype: DataType::Float64 },
        ],
        rows: vec![vec![
            Value::One(Scalar::Text("a".to_string())),
            Value::Many(vec![Scalar::Text("x".to_string()), Scalar::Null]),
            Value::One(Scalar::Dec(-5, 1)),
        ]],
    };
    let r = unnest(&t, "tags").unwrap();
    assert_eq!(r.fields[1].dtype, DataType::Utf8);
    assert_eq!(render(&r, 10), "shape: (2, 3)\nid|tags|w\nstr|str|f64\n---\na|x|-0.5\na|null|-0.5\n---\n");
}

#[test]
fn render_lists_and_numbers() {
    let t = Table {
        fields: vec![
            Field { name: "xs".to_string(), dtype: DataType::List(ElemType::Float64) },
            Field { name: "i".to_string(), dtype: DataType::Int64 },
        ],
        rows: vec![
            vec![Value::Many(vec![Scalar::Dec(1005, 3), Scalar::Dec(7, 0)]), Value::One(Scalar::Int(i64::MIN))],
            vec![Value::Many(vec![]), Value::One(Scalar::Int(-42))],
        ],
    };
    assert_eq!(
        render(&t, 5),
        "shape: (2, 2)\nxs|i\nlist[f64]|i64\n---\n[1.005, 7.0]|-9223372036854775808\n[]|-42\n---\n"
    );
    assert_eq!(render(&t, 1), "shape: (1, 2)\nxs|i\nlist[f64]|i64\n---\n[1.005, 7.0]|-9223372036854775808\n---\n");
}

#[test]
fn partitions_deal_rows_round_robin() {
    let t = numbers(7);
    let parts = execute_plan(&t, 3);
    let firsts: Vec<Vec<i64>> = parts
        .iter()
        .map(|p| p.iter().map(|r| match &r[0] { Value::One(Scalar::Int(i)) => *i, _ => -1 }).collect())
        .collect();
    assert_eq!(firsts, vec![vec![0, 3, 6], vec![1, 4], vec![2, 5]]);
}

#[test]
fn merge_keeps_every_row_once_in_any_order() {
    let t = numbers(11);
    let key = |r: &Vec<Value>| match &r[0] {
        Value::One(Scalar::Int(i)) => *i,
        _ => -1,
    };
    for arrivals in [vec![], vec![2, 2, 0, 1, 9, 0, 3, 3, 1], vec![0; 20], vec![1, 0, 1, 0, 1, 0, 2, 3]] {
        let parts = execute_plan(&t, 4);
        let (rows, src) = merge(&parts, &arrivals);
        assert_eq!(src.len(), rows.len());
        let mut keys: Vec<i64> = rows.iter().map(key).collect();
        for q in 0..4usize {
            let from_q: Vec<i64> = rows.iter().zip(src.iter()).filter(|(_, s)| s.0 == q).map(|(r, _)| key(r)).collect();
            let mut sorted = from_q.clone();
            sorted.sort();
            assert_eq!(from_q, sorted);
        }
        keys.sort();
        assert_eq!(keys, (0..11).collect::<Vec<i64>>());
    }
}

#[test]
fn validator_and_evaluator_agree() {
    let g = || Verb::GroupBy(vec!["n".to_string()]);
    let s = || Verb::Summarize("count".to_string());
    let chains: Vec<Vec<Verb>> = vec![
        vec![],
        vec![Verb::Show],
        vec![Verb::Source(numbers(3))],
        vec![Verb::Source(numbers(3)), Verb::Show, Verb::Show],
        vec![Verb::Source(numbers(3)), g(), s(), Verb::Head(Some(1))],
        vec![Verb::Source(numbers(3)), g(), Verb::Head(None)],
        vec![Verb::Source(numbers(3)), g(), g()],
        vec![Verb::Source(numbers(3)), g(), Verb::Source(numbers(2))],
        vec![Verb::Source(numbers(3)), s()],
        vec![Verb::Source(lists()), Verb::Unnest("ints".to_string()), Verb::Unnest("ints".to_string())],
        vec![Verb::Source(numbers(3)), Verb::Head(Some(2)), Verb::Head(Some(1))],
    ];
    for chain in &chains {
        let checked = pipeline(chain);
        let evaluated = interpreter::eval(chain);
        assert_eq!(checked.is_ok(), evaluated.is_ok());
        if let Err(e) = evaluated {
            assert_eq!(checked, Err(e));
        }
    }
}

#[test]
fn batches_render_up_to_budget_and_stop_on_failure() {
    let row = |i: i64| vec![Value::One(Scalar::Int(i))];
    let fields = vec![Field { name: "n".to_string(), dtype: DataType::Int64 }];
    let batches = vec![Ok(vec![row(0), row(1)]), Ok(vec![]), Ok(vec![row(2), row(3)]), Err(ExecError { partition: 1 })];
    assert_eq!(render_batches(&fields, &batches, 3).unwrap(), "shape: (3, 1)\nn\ni64\n---\n0\n1\n2\n---\n");
    assert_eq!(collect_batches(&batches, 4).unwrap().len(), 4);
    assert_eq!(render_batches(&fields, &batches, 5), Err(ExecError { partition: 1 }));
    let failing_first = vec![Err(ExecError { partition: 0 }), Ok(vec![row(0)])];
    assert_eq!(render_batches(&fields, &failing_first, 10), Err(ExecError { partition: 0 }));
    assert_eq!(render_batches(&fields, &failing_first, 0).unwrap(), "shape: (0, 1)\nn\ni64\n---\n---\n");
}
