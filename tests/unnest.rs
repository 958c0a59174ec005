use dply::interpreter;
use dply::table::{DataType, ElemType, Field, Scalar, Table, Value};
use dply::verbs::Verb;

/// Shapes with a list column and its length: `(id, list)`, `None` for a
/// null list.
fn shapes(dtype: ElemType, data: Vec<(i64, Option<Vec<Scalar>>)>) -> Table {
    let name = match dtype {
        ElemType::Int64 => "ints",
        ElemType::Utf8 => "tags",
        ElemType::Float64 => "floats",
    };
    let rows = data
        .into_iter()
        .map(|(id, list)| {
            let len = match &list {
                Some(v) => Value::One(Scalar::Int(v.len() as i64)),
                None => Value::One(Scalar::Null),
            };
            let cell = match list {
                Some(v) => Value::Many(v),
                None => Value::One(Scalar::Null),
            };
            vec![Value::One(Scalar::Int(id)), len, cell]
        })
        .collect();
    Table {
        fields: vec![
            Field { name: "shape_id".to_string(), dtype: DataType::Int64 },
            Field { name: format!("{name}_len"), dtype: DataType::Int64 },
            Field { name: name.to_string(), dtype: DataType::List(dtype) },
        ],
        rows,
    }
}

fn ints(v: &[i64]) -> Option<Vec<Scalar>> {
    Some(v.iter().map(|i| Scalar::Int(*i)).collect())
}

fn tags(v: &[&str]) -> Option<Vec<Scalar>> {
    Some(v.iter().map(|s| Scalar::Text(s.to_string())).collect())
}

fn floats(v: &[(i64, u8)]) -> Option<Vec<Scalar>> {
    Some(v.iter().map(|(m, s)| Scalar::Dec(*m, *s)).collect())
}

fn run(chain: Vec<Verb>) -> String {
    interpreter::eval(&chain).map_err(|e| e.message()).unwrap().concat()
}

#[test]
fn unnest_ints() {
    let t = shapes(
        ElemType::Int64,
        vec![
            (1, ints(&[3, 88, 94])),
            (2, ints(&[73])),
            (3, None),
            (4, ints(&[43, 97])),
            (5, None),
            (6, ints(&[65])),
            (7, ints(&[1, 8, 27, 64])),
        ],
    );
    let output = run(vec![Verb::Source(t), Verb::Unnest("ints".to_string()), Verb::Head(None)]);
    assert_eq!(
        output,
        "shape: (10, 3)\nshape_id|ints_len|ints\ni64|i64|i64\n---\n\
         1|3|3\n1|3|88\n1|3|94\n2|1|73\n3|null|null\n4|2|43\n4|2|97\n5|null|null\n6|1|65\n7|4|1\n---\n"
    );
}

#[test]
fn unnest_str() {
    let t = shapes(
        ElemType::Utf8,
        vec![
            (1, tags(&["tag2", "tag5", "tag8", "tag8"])),
            (2, tags(&["tag9"])),
            (3, tags(&["tag5"])),
            (4, tags(&["tag7"])),
            (5, tags(&["tag2", "tag3", "tag4"])),
        ],
    );
    let output = run(vec![Verb::Source(t), Verb::Unnest("tags".to_string()), Verb::Head(None)]);
    assert_eq!(
        output,
        "shape: (10, 3)\nshape_id|tags_len|tags\ni64|i64|str\n---\n\
         1|4|tag2\n1|4|tag5\n1|4|tag8\n1|4|tag8\n2|1|tag9\n3|1|tag5\n4|1|tag7\n5|3|tag2\n5|3|tag3\n5|3|tag4\n---\n"
    );
}

#[test]
fn unnest_floats() {
    let t = shapes(
        ElemType::Float64,
        vec![
            (1, floats(&[(25, 1), (35, 1), (60, 1), (230, 1)])),
            (2, floats(&[(35, 1), (150, 1), (230, 1)])),
            (3, floats(&[(10, 1), (25, 1), (60, 1), (60, 1)])),
            (4, floats(&[(25, 1), (30, 1), (35, 1), (40, 1)])),
        ],
    );
    let output = run(vec![Verb::Source(t), Verb::Unnest("floats".to_string()), Verb::Head(Some(12))]);
    assert_eq!(
        output,
        "shape: (12, 3)\nshape_id|floats_len|floats\ni64|i64|f64\n---\n\
         1|4|2.5\n1|4|3.5\n1|4|6.0\n1|4|23.0\n2|3|3.5\n2|3|15.0\n2|3|23.0\n\
         3|4|1.0\n3|4|2.5\n3|4|6.0\n3|4|6.0\n4|4|2.5\n---\n"
    );
}

#[test]
fn unnest_empty_list_gives_no_row() {
    let t = shapes(ElemType::Int64, vec![(1, ints(&[])), (2, None), (3, ints(&[5]))]);
    let output = run(vec![Verb::Source(t), Verb::Unnest("ints".to_string()), Verb::Show]);
    assert_eq!(output, "shape: (2, 3)\nshape_id|ints_len|ints\ni64|i64|i64\n---\n2|null|null\n3|1|5\n---\n");
}
