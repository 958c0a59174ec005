use dply::engine::Context;
use dply::interpreter;
use dply::select::{Pattern, SelectItem};
use dply::table::{DataType, Field, Scalar, Table, Value};
use dply::verbs::Verb;

fn field(name: &str, dtype: DataType) -> Field {
    Field { name: name.to_string(), dtype }
}

fn text(s: &str) -> Value {
    Value::One(Scalar::Text(s.to_string()))
}

fn int_cell(i: i64) -> Value {
    Value::One(Scalar::Int(i))
}

fn dec(m: i64, s: u8) -> Value {
    Value::One(Scalar::Dec(m, s))
}

/// Five taxi trips: pickup and dropoff times, passengers, distance.
fn trips() -> Table {
    let data = [
        ("2022-11-22 19:27:01", "2022-11-22 19:45:53", 1, 314, 2),
        ("2022-11-27 16:43:26", "2022-11-27 16:50:06", 2, 106, 2),
        ("2022-11-12 16:58:37", "2022-11-12 17:12:31", 1, 236, 2),
        ("2022-11-30 22:24:08", "2022-11-30 22:39:16", 1, 52, 1),
        ("2022-11-26 23:03:41", "2022-11-26 23:03:51", 3, 0, 1),
    ];
    let rows = data
        .iter()
        .map(|(a, b, p, m, s)| vec![text(a), text(b), int_cell(*p), dec(*m, *s)])
        .collect();
    Table {
        fields: vec![
            field("tpep_pickup_datetime", DataType::Utf8),
            field("tpep_dropoff_datetime", DataType::Utf8),
            field("passenger_count", DataType::Int64),
            field("trip_distance", DataType::Float64),
        ],
        rows,
    }
}

fn col(name: &str) -> SelectItem {
    SelectItem::Column(name.to_string())
}

fn matching(kind: Pattern, p: &str, negated: bool) -> SelectItem {
    SelectItem::Matching(kind, p.to_string(), negated)
}

fn run(chain: Vec<Verb>) -> String {
    let out = interpreter::eval(&chain).map_err(|e| e.message()).unwrap();
    out.concat()
}

#[test]
fn select_not_starts_with() {
    let output = run(vec![
        Verb::Source(trips()),
        Verb::Select(vec![
            col("tpep_pickup_datetime"),
            col("tpep_dropoff_datetime"),
            col("passenger_count"),
            col("trip_distance"),
        ]),
        Verb::Select(vec![matching(Pattern::StartsWith, "tpep", true)]),
        Verb::Head(Some(5)),
    ]);
    assert_eq!(
        output,
        "shape: (5, 2)\npassenger_count|trip_distance\ni64|f64\n---\n1|3.14\n2|1.06\n1|2.36\n1|5.2\n3|0.0\n---\n"
    );
}

#[test]
fn select_not_ends_with() {
    let output = run(vec![
        Verb::Source(trips()),
        Verb::Select(vec![
            col("tpep_pickup_datetime"),
            col("tpep_dropoff_datetime"),
            col("passenger_count"),
            col("trip_distance"),
        ]),
        Verb::Select(vec![matching(Pattern::EndsWith, "time", true)]),
        Verb::Head(Some(3)),
    ]);
    assert_eq!(
        output,
        "shape: (3, 2)\npassenger_count|trip_distance\ni64|f64\n---\n1|3.14\n2|1.06\n1|2.36\n---\n"
    );
}

#[test]
fn select_not_contains() {
    let output = run(vec![
        Verb::Source(trips()),
        Verb::Select(vec![
            col("tpep_pickup_datetime"),
            col("tpep_dropoff_datetime"),
            col("passenger_count"),
            col("trip_distance"),
        ]),
        Verb::Select(vec![matching(Pattern::Contains, "time", true)]),
        Verb::Head(Some(3)),
    ]);
    assert_eq!(
        output,
        "shape: (3, 2)\npassenger_count|trip_distance\ni64|f64\n---\n1|3.14\n2|1.06\n1|2.36\n---\n"
    );
}

#[test]
fn select_starts_with_keeps_matching_columns() {
    let output = run(vec![
        Verb::Source(trips()),
        Verb::Select(vec![matching(Pattern::StartsWith, "tpep", false)]),
        Verb::Head(Some(2)),
    ]);
    assert_eq!(
        output,
        "shape: (2, 2)\ntpep_pickup_datetime|tpep_dropoff_datetime\nstr|str\n---\n\
         2022-11-22 19:27:01|2022-11-22 19:45:53\n2022-11-27 16:43:26|2022-11-27 16:50:06\n---\n"
    );
}

#[test]
fn select_contains_and_negation_split_columns() {
    let t = trips();
    for kind in [Pattern::StartsWith, Pattern::EndsWith, Pattern::Contains] {
        let kept = dply::select::select(&t, &vec![matching(kind, "time", false)]).unwrap();
        let rest = dply::select::select(&t, &vec![matching(kind, "time", true)]).unwrap();
        let mut names: Vec<String> = kept.fields.iter().chain(rest.fields.iter()).map(|f| f.name.clone()).collect();
        names.sort();
        let mut all: Vec<String> = t.fields.iter().map(|f| f.name.clone()).collect();
        all.sort();
        assert_eq!(names, all);
        assert_eq!(kept.rows.len(), 5);
        assert_eq!(rest.rows.len(), 5);
    }
}

#[test]
fn select_columns_in_requested_order_with_rename() {
    let output = run(vec![
        Verb::Source(trips()),
        Verb::Select(vec![
            SelectItem::Rename("distance".to_string(), "trip_distance".to_string()),
            col("passenger_count"),
        ]),
        Verb::Show,
    ]);
    assert_eq!(
        output,
        "shape: (5, 2)\ndistance|passenger_count\nf64|i64\n---\n3.14|1\n1.06|2\n2.36|1\n5.2|1\n0.0|3\n---\n"
    );
}

#[test]
fn select_unknown_column_fails_before_output() {
    let chain = vec![Verb::Source(trips()), Verb::Show, Verb::Source(trips()), Verb::Select(vec![col("fare")]), Verb::Show];
    let err = interpreter::eval(&chain).unwrap_err();
    assert_eq!(err.message(), "select error: unknown column");
}

#[test]
fn end_to_end_select_then_head() {
    let t = Table {
        fields: vec![field("passenger_count", DataType::Int64), field("trip_distance", DataType::Float64)],
        rows: vec![
            vec![int_cell(1), dec(314, 2)],
            vec![int_cell(2), dec(106, 2)],
            vec![int_cell(1), dec(236, 2)],
            vec![int_cell(1), dec(52, 1)],
            vec![int_cell(3), dec(0, 1)],
        ],
    };
    let output = run(vec![
        Verb::Source(t),
        Verb::Select(vec![col("passenger_count"), col("trip_distance")]),
        Verb::Head(Some(5)),
    ]);
    assert_eq!(
        output,
        "shape: (5, 2)\npassenger_count|trip_distance\ni64|f64\n---\n1|3.14\n2|1.06\n1|2.36\n1|5.2\n3|0.0\n---\n"
    );
}

#[test]
fn head_without_input_fails() {
    let err = interpreter::eval(&vec![Verb::Head(None)]).unwrap_err();
    assert_eq!(err.message(), "head error: missing input dataframe");
    let mut ctx = Context::new();
    assert_eq!(dply::engine::head::eval(None, true, &mut ctx).unwrap_err().message(), "head error: missing input dataframe");
    assert_eq!(dply::engine::show::eval(&mut ctx).unwrap_err().message(), "show error: missing input dataframe");
}

#[test]
fn head_after_show_needs_new_source() {
    let err = interpreter::eval(&vec![Verb::Source(trips()), Verb::Show, Verb::Head(Some(2))]).unwrap_err();
    assert_eq!(err.message(), "head error: missing input dataframe");
}

/// The taxi trips with more of their columns.
fn nyctaxi() -> Table {
    let data = [
        (2, "2022-11-22 19:27:01", "2022-11-22 19:45:53", 1, (314, 2), 234, (376, 2)),
        (2, "2022-11-27 16:43:26", "2022-11-27 16:50:06", 2, (106, 2), 48, (0, 1)),
        (2, "2022-11-12 16:58:37", "2022-11-12 17:12:31", 1, (236, 2), 142, (296, 2)),
        (1, "2022-11-30 22:24:08", "2022-11-30 22:39:16", 1, (52, 1), 90, (0, 1)),
        (2, "2022-11-26 23:03:41", "2022-11-26 23:03:51", 3, (0, 1), 264, (0, 1)),
    ];
    let rows = data
        .iter()
        .map(|(v, a, b, p, d, pu, tip)| {
            vec![
                int_cell(*v),
                text(a),
                text(b),
                int_cell(*p),
                dec(d.0, d.1),
                text("Standard"),
                int_cell(*pu),
                dec(tip.0, tip.1),
                dec(0, 1),
            ]
        })
        .collect();
    Table {
        fields: vec![
            field("VendorID", DataType::Int64),
            field("tpep_pickup_datetime", DataType::Utf8),
            field("tpep_dropoff_datetime", DataType::Utf8),
            field("passenger_count", DataType::Int64),
            field("trip_distance", DataType::Float64),
            field("rate_code", DataType::Utf8),
            field("PULocationID", DataType::Int64),
            field("tip_amount", DataType::Float64),
            field("airport_fee", DataType::Float64),
        ],
        rows,
    }
}

const PICKUP_DROPOFF: &str = "---\n2022-11-22 19:27:01|2022-11-22 19:45:53\n\
    2022-11-27 16:43:26|2022-11-27 16:50:06\n2022-11-12 16:58:37|2022-11-12 17:12:31\n---\n";

#[test]
fn select_columns() {
    let output = run(vec![
        Verb::Source(nyctaxi()),
        Verb::Select(vec![
            col("rate_code"),
            col("tip_amount"),
            col("tpep_pickup_datetime"),
            col("airport_fee"),
            col("tpep_dropoff_datetime"),
        ]),
        Verb::Head(Some(3)),
    ]);
    assert_eq!(
        output,
        "shape: (3, 5)\nrate_code|tip_amount|tpep_pickup_datetime|airport_fee|tpep_dropoff_datetime\n\
         str|f64|str|f64|str\n---\n\
         Standard|3.76|2022-11-22 19:27:01|0.0|2022-11-22 19:45:53\n\
         Standard|0.0|2022-11-27 16:43:26|0.0|2022-11-27 16:50:06\n\
         Standard|2.96|2022-11-12 16:58:37|0.0|2022-11-12 17:12:31\n---\n"
    );
}

#[test]
fn select_rename() {
    let output = run(vec![
        Verb::Source(nyctaxi()),
        Verb::Select(vec![
            SelectItem::Rename("pickup_datetime".to_string(), "tpep_pickup_datetime".to_string()),
            SelectItem::Rename("dropoff_datetime".to_string(), "tpep_dropoff_datetime".to_string()),
            SelectItem::Rename("vendor_id".to_string(), "VendorID".to_string()),
            SelectItem::Rename("pu_location_id".to_string(), "PULocationID".to_string()),
        ]),
        Verb::Head(Some(3)),
    ]);
    assert_eq!(
        output,
        "shape: (3, 4)\npickup_datetime|dropoff_datetime|vendor_id|pu_location_id\nstr|str|i64|i64\n---\n\
         2022-11-22 19:27:01|2022-11-22 19:45:53|2|234\n\
         2022-11-27 16:43:26|2022-11-27 16:50:06|2|48\n\
         2022-11-12 16:58:37|2022-11-12 17:12:31|2|142\n---\n"
    );
}

fn pickup_dropoff_by(kind: Pattern, p: &str) -> String {
    run(vec![Verb::Source(nyctaxi()), Verb::Select(vec![matching(kind, p, false)]), Verb::Head(Some(3))])
}

#[test]
fn select_starts_with() {
    assert_eq!(
        pickup_dropoff_by(Pattern::StartsWith, "tpep"),
        format!("shape: (3, 2)\ntpep_pickup_datetime|tpep_dropoff_datetime\nstr|str\n{PICKUP_DROPOFF}")
    );
}

#[test]
fn select_ends_with() {
    assert_eq!(
        pickup_dropoff_by(Pattern::EndsWith, "time"),
        format!("shape: (3, 2)\ntpep_pickup_datetime|tpep_dropoff_datetime\nstr|str\n{PICKUP_DROPOFF}")
    );
}

#[test]
fn select_contains() {
    assert_eq!(
        pickup_dropoff_by(Pattern::Contains, "time"),
        format!("shape: (3, 2)\ntpep_pickup_datetime|tpep_dropoff_datetime\nstr|str\n{PICKUP_DROPOFF}")
    );
}

#[test]
fn summarize_after_show_misses_input() {
    let err = interpreter::eval(&vec![Verb::Source(trips()), Verb::Show, Verb::Summarize("n".to_string())]).unwrap_err();
    assert_eq!(err.message(), "summarize error: missing input dataframe");
}
