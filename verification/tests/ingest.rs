use ingestion::json::{json_type, JsonNumber, JsonValue};
use ingestion::receiver::http::{build_column, build_record_batch, ingest_body, ingest_event, ingest_payload, HttpReceiverConfig, IngestRefusal};
use ingestion::types::AttrValue;
use ingestion::record::{Cell, ColumnType, Datum, ElemType};

fn s(x: &str) -> JsonValue {
    JsonValue::String(x.to_string())
}

fn num(i: i64) -> JsonValue {
    JsonValue::Number(JsonNumber { as_i64: Some(i), as_u64: if i >= 0 { Some(i as u64) } else { None }, as_f64_bits: Some((i as f64).to_bits()) }, i.to_string())
}

fn float(f: f64) -> JsonValue {
    JsonValue::Number(JsonNumber { as_i64: None, as_u64: None, as_f64_bits: Some(f.to_bits()) }, format!("{f:?}"))
}

fn obj(entries: Vec<(&str, JsonValue)>) -> JsonValue {
    JsonValue::Object(entries.into_iter().map(|(k, v)| (k.to_string(), v)).collect())
}

fn payload(rows: Vec<JsonValue>) -> JsonValue {
    obj(vec![("datasource_id", s("ds-1")), ("rows", JsonValue::Array(rows))])
}

fn err_of(p: &JsonValue) -> String {
    match ingest_payload(p) {
        Ok(_) => panic!("expected a refusal"),
        Err(IngestRefusal::Invalid(m)) => m,
        Err(IngestRefusal::Arrow(e)) => panic!("unexpected refusal of the record: {e}"),
    }
}

#[test]
fn accepts_rows_and_types_columns_from_first_row() {
    let p = payload(vec![
        obj(vec![("a", s("x")), ("b", num(1)), ("c", float(1.5)), ("d", JsonValue::Bool(true))]),
        obj(vec![("a", JsonValue::Null), ("b", num(2)), ("c", num(3))]),
    ]);
    let req = ingest_payload(&p).unwrap();
    assert_eq!(req.datasource_id, "ds-1");
    assert_eq!(req.record.num_rows, 2);
    let cols = &req.record.columns;
    assert_eq!(cols.len(), 4);
    assert_eq!(cols[0].name, "a");
    assert_eq!(cols[0].data_type, ColumnType::Utf8);
    assert_eq!(cols[1].data_type, ColumnType::Int64);
    assert_eq!(cols[2].data_type, ColumnType::Float64);
    assert_eq!(cols[3].data_type, ColumnType::Boolean);
    assert!(matches!(&cols[0].cells[0], Cell::Scalar(Some(Datum::Utf8(x))) if x == "x"));
    assert!(matches!(&cols[0].cells[1], Cell::Scalar(None)));
    assert!(matches!(&cols[1].cells[1], Cell::Scalar(Some(Datum::Int64(2)))));
    // an integer in a float column is read as a float
    assert!(matches!(&cols[2].cells[1], Cell::Scalar(Some(Datum::Float64(b))) if f64::from_bits(*b) == 3.0));
    // a missing field is a null
    assert!(matches!(&cols[3].cells[1], Cell::Scalar(None)));
    for c in cols {
        assert_eq!(c.cells.len(), 2);
    }
}

#[test]
fn refuses_missing_datasource_id() {
    let p = obj(vec![("rows", JsonValue::Array(vec![obj(vec![("a", num(1))])]))]);
    assert_eq!(err_of(&p), "missing datasource_id");
    let p = obj(vec![("datasource_id", num(7)), ("rows", JsonValue::Array(vec![]))]);
    assert_eq!(err_of(&p), "missing datasource_id");
    assert_eq!(err_of(&JsonValue::Array(vec![])), "missing datasource_id");
}

#[test]
fn refuses_missing_or_empty_rows() {
    let p = obj(vec![("datasource_id", s("d"))]);
    assert_eq!(err_of(&p), "missing or invalid rows");
    let p = obj(vec![("datasource_id", s("d")), ("rows", s("x"))]);
    assert_eq!(err_of(&p), "missing or invalid rows");
    assert_eq!(err_of(&payload(vec![])), "rows must be non-empty");
}

#[test]
fn refuses_non_object_rows() {
    let p = payload(vec![obj(vec![("a", num(1))]), num(3)]);
    assert_eq!(err_of(&p), "each row must be a JSON object");
}

#[test]
fn refuses_mismatched_scalars() {
    let p = payload(vec![obj(vec![("a", s("x"))]), obj(vec![("a", num(1))])]);
    assert_eq!(err_of(&p), "field 'a': expected string, got number");
    let p = payload(vec![obj(vec![("n", num(1))]), obj(vec![("n", float(0.5))])]);
    assert_eq!(err_of(&p), "field 'n': expected integer, got float");
    let p = payload(vec![obj(vec![("n", num(1))]), obj(vec![("n", JsonValue::Bool(false))])]);
    assert_eq!(err_of(&p), "field 'n': expected integer, got boolean");
    let p = payload(vec![obj(vec![("f", float(1.0))]), obj(vec![("f", s("1"))])]);
    assert_eq!(err_of(&p), "field 'f': expected number, got string");
    let p = payload(vec![obj(vec![("b", JsonValue::Bool(true))]), obj(vec![("b", JsonValue::Array(vec![]))])]);
    assert_eq!(err_of(&p), "field 'b': expected boolean, got array");
    let nan = JsonValue::Number(JsonNumber { as_i64: None, as_u64: None, as_f64_bits: None }, "1e999".to_string());
    let p = payload(vec![obj(vec![("f", float(1.0))]), obj(vec![("f", nan)])]);
    assert_eq!(err_of(&p), "field 'f': number out of f64 range");
}

#[test]
fn refuses_uninferable_first_values() {
    let p = payload(vec![obj(vec![("z", JsonValue::Null)])]);
    assert_eq!(err_of(&p), "field 'z': first row must not be null — cannot infer column type");
    let p = payload(vec![obj(vec![("l", JsonValue::Array(vec![]))])]);
    assert_eq!(err_of(&p), "field 'l': cannot infer element type from empty array in first row");
    let p = payload(vec![obj(vec![("l", JsonValue::Array(vec![obj(vec![])]))])]);
    assert_eq!(err_of(&p), "field 'l': unsupported array element type 'object'");
}

#[test]
fn builds_list_columns_with_null_elements() {
    let rows = vec![
        obj(vec![("l", JsonValue::Array(vec![num(1), JsonValue::Null]))]),
        obj(vec![("l", JsonValue::Null)]),
        obj(vec![]),
    ];
    let col = build_column(&"l".to_string(), &JsonValue::Array(vec![num(1)]), &rows).unwrap();
    assert_eq!(col.data_type, ColumnType::List(ElemType::Int64));
    match &col.cells[0] {
        Cell::List(Some(v)) => {
            assert_eq!(v.len(), 2);
            assert!(matches!(v[0], Some(Datum::Int64(1))));
            assert!(v[1].is_none());
        }
        _ => panic!("expected a list"),
    }
    assert!(matches!(col.cells[1], Cell::List(None)));
    assert!(matches!(col.cells[2], Cell::List(None)));
}

#[test]
fn refuses_mismatched_list_elements() {
    let p = payload(vec![obj(vec![("l", JsonValue::Array(vec![s("a"), num(2)]))])]);
    assert_eq!(err_of(&p), "field 'l': array element type mismatch, expected string");
    let p = payload(vec![obj(vec![("l", JsonValue::Array(vec![num(1), float(2.5)]))])]);
    assert_eq!(err_of(&p), "field 'l': array element type mismatch, expected integer");
    let p = payload(vec![obj(vec![("l", JsonValue::Array(vec![float(1.5), JsonValue::Bool(true)]))])]);
    assert_eq!(err_of(&p), "field 'l': array element type mismatch, expected number");
    let p = payload(vec![obj(vec![("l", JsonValue::Array(vec![JsonValue::Bool(true), s("x")]))])]);
    assert_eq!(err_of(&p), "field 'l': array element type mismatch, expected boolean");
    let p = payload(vec![obj(vec![("l", JsonValue::Array(vec![num(1)]))]), obj(vec![("l", num(1))])]);
    assert_eq!(err_of(&p), "field 'l': expected array, got number");
}

#[test]
fn builds_map_columns_and_refuses_non_objects() {
    let inner = obj(vec![("k", num(1)), ("j", s("v"))]);
    let rows = vec![obj(vec![("m", inner)]), obj(vec![("m", JsonValue::Null)])];
    let rec = build_record_batch(&rows).unwrap();
    assert_eq!(rec.columns[0].data_type, ColumnType::StringMap);
    match &rec.columns[0].cells[0] {
        Cell::Entries(Some(e)) => {
            assert_eq!(e.len(), 2);
            assert_eq!(e[0], ("k".to_string(), "1".to_string()));
            assert_eq!(e[1], ("j".to_string(), "\"v\"".to_string()));
        }
        _ => panic!("expected entries"),
    }
    assert!(matches!(rec.columns[0].cells[1], Cell::Entries(None)));
    let p = payload(vec![obj(vec![("m", obj(vec![]))]), obj(vec![("m", s("x"))])]);
    assert_eq!(err_of(&p), "field 'm': expected object, got string");
}

#[test]
fn first_bad_column_in_first_row_order_wins() {
    let p = payload(vec![
        obj(vec![("b", num(1)), ("a", s("x"))]),
        obj(vec![("b", s("no")), ("a", num(2))]),
    ]);
    assert_eq!(err_of(&p), "field 'b': expected integer, got string");
}

#[test]
fn names_json_kinds() {
    assert_eq!(json_type(&JsonValue::Null), "null");
    assert_eq!(json_type(&JsonValue::Bool(true)), "boolean");
    assert_eq!(json_type(&num(1)), "number");
    assert_eq!(json_type(&s("")), "string");
    assert_eq!(json_type(&JsonValue::Array(vec![])), "array");
    assert_eq!(json_type(&obj(vec![])), "object");
}

#[test]
fn http_receiver_listens_on_default_endpoint() {
    assert_eq!(HttpReceiverConfig::default().endpoint, "0.0.0.0:4318");
}

#[test]
fn accepted_request_becomes_an_event_naming_its_datasource() {
    let req = ingest_payload(&payload(vec![obj(vec![("a", num(1))])])).unwrap();
    let at = std::time::SystemTime::UNIX_EPOCH;
    let e = ingest_event(req, at);
    assert_eq!(e.received_at, at);
    assert_eq!(e.record.num_rows, 1);
    assert!(matches!(e.source.get(&ingestion::attrs::datasource::ID.to_string()), Some(AttrValue::String(s)) if s == "ds-1"));
    assert_eq!(ingestion::attrs::datasource::ID, "datasource.id");
    assert_eq!(ingestion::attrs::datasource::NAME, "datasource.name");
    assert_eq!(ingestion::attrs::datasource::KIND, "datasource.kind");
}

#[test]
fn copies_documents_exactly() {
    let v = obj(vec![("k", JsonValue::Array(vec![num(1), s("x"), JsonValue::Null])), ("b", JsonValue::Bool(false))]);
    let c = v.deep_copy();
    assert_eq!(format!("{:?}", c), format!("{:?}", v));
}

#[test]
fn refuses_a_first_row_without_fields() {
    let p = obj(vec![("datasource_id", s("d")), ("rows", JsonValue::Array(vec![obj(vec![])]))]);
    match ingest_payload(&p) {
        Err(IngestRefusal::Arrow(m)) => {
            assert_eq!(m, "Invalid argument error: must either specify a row count or at least one column");
        }
        other => panic!("expected the record to be refused, got {:?}", other.map(|r| r.record.num_rows)),
    }
    // a later row without fields is only a row of nulls
    let p = payload(vec![obj(vec![("a", num(1))]), obj(vec![])]);
    assert_eq!(ingest_payload(&p).unwrap().record.num_rows, 2);
}

#[test]
fn parses_request_bodies() {
    let req = ingest_body(br#"{"datasource_id":"d","rows":[{"a":1,"f":1.5,"s":"x"}]}"#).unwrap();
    assert_eq!(req.datasource_id, "d");
    let cols = &req.record.columns;
    assert_eq!(cols.len(), 3);
    assert_eq!(cols[0].name, "a");
    assert_eq!(cols[0].data_type, ColumnType::Int64);
    assert!(matches!(&cols[0].cells[0], Cell::Scalar(Some(Datum::Int64(1)))));
    assert_eq!(cols[1].data_type, ColumnType::Float64);
    assert!(matches!(&cols[1].cells[0], Cell::Scalar(Some(Datum::Float64(b))) if f64::from_bits(*b) == 1.5));
    assert!(matches!(&cols[2].cells[0], Cell::Scalar(Some(Datum::Utf8(x))) if x == "x"));
}

#[test]
fn refuses_bodies_that_are_not_json() {
    match ingest_body(b"not json") {
        Err(IngestRefusal::Invalid(m)) => assert!(m.contains("line 1"), "{m}"),
        _ => panic!("expected a parse error"),
    }
    match ingest_body(br#"{"rows":[{"a":1}]}"#) {
        Err(IngestRefusal::Invalid(m)) => assert_eq!(m, "missing datasource_id"),
        _ => panic!("expected a refusal"),
    }
}

#[test]
fn map_values_are_held_as_their_json_text() {
    let body = br#"{"datasource_id":"d","rows":[{"m":{"a":"x","b":1,"c":[1.5,null],"d":{"e":true}}},{},{"m":null}]}"#;
    let req = ingest_body(body).unwrap();
    let col = &req.record.columns[0];
    assert_eq!(col.name, "m");
    assert_eq!(col.data_type, ColumnType::StringMap);
    assert_eq!(col.cells.len(), 3);
    match &col.cells[0] {
        Cell::Entries(Some(e)) => {
            let texts: Vec<(&str, &str)> = e.iter().map(|(k, v)| (k.as_str(), v.as_str())).collect();
            assert_eq!(texts, vec![("a", "\"x\""), ("b", "1"), ("c", "[1.5,null]"), ("d", "{\"e\":true}")]);
        }
        _ => panic!("expected entries"),
    }
    assert!(matches!(col.cells[1], Cell::Entries(None)));
    assert!(matches!(col.cells[2], Cell::Entries(None)));
}
