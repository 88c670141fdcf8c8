use vstd::prelude::*;
use crate::json::{JsonNumber, JsonValue, JsonView, views, opt_view, get_field, kind_name, json_type, get_field_of, lemma_array_view, spec_parse_json, parse_json, spec_json_text, json_text};
use crate::types::{Event, AttrValue};
use crate::table::NamedTable;
use crate::record::{ElemType, ColumnType, Datum, DatumView, Cell, CellView, Column, ColumnView, Record, opt_datum_view, datums_view, entries_view, texts_view, cell_view, cells_view, columns_view, lemma_object_view};

verus! {

// ---------------------------------------------------------------------------
// Model of payload validation and column construction
// ---------------------------------------------------------------------------

/// The text of an error about one field.
pub open spec fn field_message(name: Seq<char>, detail: Seq<char>) -> Seq<char> {
    "field '"@ + name + "': "@ + detail
}

/// A cell of a scalar column of element type `t`.
pub open spec fn scalar_cell(t: ElemType, name: Seq<char>, v: Option<JsonView>) -> Result<Option<DatumView>, Seq<char>> {
    match v {
        None => Ok(None),
        Some(JsonView::Null) => Ok(None),
        Some(v) => match t {
            ElemType::Utf8 => match v {
                JsonView::Str(s) => Ok(Some(DatumView::Utf8(s))),
                _ => Err(field_message(name, "expected string, got "@ + kind_name(v))),
            },
            ElemType::Int64 => match v {
                JsonView::Number(JsonNumber { as_i64: Some(i), .. }, _) => Ok(Some(DatumView::Int64(i))),
                JsonView::Number(JsonNumber { as_i64: None, .. }, _) => Err(field_message(name, "expected integer, got float"@)),
                _ => Err(field_message(name, "expected integer, got "@ + kind_name(v))),
            },
            ElemType::Float64 => match v {
                JsonView::Number(JsonNumber { as_f64_bits: Some(b), .. }, _) => Ok(Some(DatumView::Float64(b))),
                JsonView::Number(JsonNumber { as_f64_bits: None, .. }, _) => Err(field_message(name, "number out of f64 range"@)),
                _ => Err(field_message(name, "expected number, got "@ + kind_name(v))),
            },
            ElemType::Boolean => match v {
                JsonView::Bool(b) => Ok(Some(DatumView::Boolean(b))),
                _ => Err(field_message(name, "expected boolean, got "@ + kind_name(v))),
            },
        },
    }
}

/// One element of a list cell whose element type is `t`.
pub open spec fn list_elem(t: ElemType, name: Seq<char>, v: JsonView) -> Result<Option<DatumView>, Seq<char>> {
    match v {
        JsonView::Null => Ok(None),
        _ => match t {
            ElemType::Utf8 => match v {
                JsonView::Str(s) => Ok(Some(DatumView::Utf8(s))),
                _ => Err(field_message(name, "array element type mismatch, expected string"@)),
            },
            ElemType::Int64 => match v {
                JsonView::Number(JsonNumber { as_i64: Some(i), .. }, _) => Ok(Some(DatumView::Int64(i))),
                _ => Err(field_message(name, "array element type mismatch, expected integer"@)),
            },
            ElemType::Float64 => match v {
                JsonView::Number(JsonNumber { as_f64_bits: Some(b), .. }, _) => Ok(Some(DatumView::Float64(b))),
                _ => Err(field_message(name, "array element type mismatch, expected number"@)),
            },
            ElemType::Boolean => match v {
                JsonView::Bool(b) => Ok(Some(DatumView::Boolean(b))),
                _ => Err(field_message(name, "array element type mismatch, expected boolean"@)),
            },
        },
    }
}

/// The elements of a list cell, or the error of its first bad element.
pub open spec fn list_elems(t: ElemType, name: Seq<char>, items: Seq<JsonView>) -> Result<Seq<Option<DatumView>>, Seq<char>>
    decreases items.len(),
{
    if items.len() == 0 {
        Ok(Seq::empty())
    } else {
        match list_elems(t, name, items.drop_last()) {
            Err(e) => Err(e),
            Ok(done) => match list_elem(t, name, items.last()) {
                Err(e) => Err(e),
                Ok(d) => Ok(done.push(d)),
            },
        }
    }
}

/// A cell of a list column.
pub open spec fn list_cell(t: ElemType, name: Seq<char>, v: Option<JsonView>) -> Result<Option<Seq<Option<DatumView>>>, Seq<char>> {
    match v {
        None => Ok(None),
        Some(JsonView::Null) => Ok(None),
        Some(JsonView::Array(items)) => match list_elems(t, name, items) {
            Err(e) => Err(e),
            Ok(ds) => Ok(Some(ds)),
        },
        Some(v) => Err(field_message(name, "expected array, got "@ + kind_name(v))),
    }
}

/// The entries of an object, each value as its JSON text.
pub open spec fn entry_texts(entries: Seq<(Seq<char>, JsonView)>) -> Seq<(Seq<char>, Seq<char>)> {
    entries.map_values(|e: (Seq<char>, JsonView)| (e.0, spec_json_text(e.1)))
}

/// A cell of a map column: the entries of the row's object, in order, each
/// value as its JSON text; a missing or null field is a null cell.
pub open spec fn map_cell(name: Seq<char>, v: Option<JsonView>) -> Result<Option<Seq<(Seq<char>, Seq<char>)>>, Seq<char>> {
    match v {
        None => Ok(None),
        Some(JsonView::Null) => Ok(None),
        Some(JsonView::Object(entries)) => Ok(Some(entry_texts(entries))),
        Some(v) => Err(field_message(name, "expected object, got "@ + kind_name(v))),
    }
}

/// A cell of a column of type `t`, from the row's field (if any).
pub open spec fn cell(t: ColumnType, name: Seq<char>, v: Option<JsonView>) -> Result<CellView, Seq<char>> {
    match t {
        ColumnType::Utf8 => scalar_result(scalar_cell(ElemType::Utf8, name, v)),
        ColumnType::Int64 => scalar_result(scalar_cell(ElemType::Int64, name, v)),
        ColumnType::Float64 => scalar_result(scalar_cell(ElemType::Float64, name, v)),
        ColumnType::Boolean => scalar_result(scalar_cell(ElemType::Boolean, name, v)),
        ColumnType::List(e) => match list_cell(e, name, v) {
            Err(m) => Err(m),
            Ok(l) => Ok(CellView::List(l)),
        },
        ColumnType::StringMap => match map_cell(name, v) {
            Err(m) => Err(m),
            Ok(m) => Ok(CellView::Entries(m)),
        },
    }
}

pub open spec fn scalar_result(r: Result<Option<DatumView>, Seq<char>>) -> Result<CellView, Seq<char>> {
    match r {
        Err(m) => Err(m),
        Ok(d) => Ok(CellView::Scalar(d)),
    }
}

/// The cells of column `name` of type `t`, one per row, or the error of the first bad row.
pub open spec fn column_cells(t: ColumnType, name: Seq<char>, rows: Seq<JsonView>) -> Result<Seq<CellView>, Seq<char>>
    decreases rows.len(),
{
    if rows.len() == 0 {
        Ok(Seq::empty())
    } else {
        match column_cells(t, name, rows.drop_last()) {
            Err(e) => Err(e),
            Ok(done) => match cell(t, name, get_field(rows.last(), name)) {
                Err(e) => Err(e),
                Ok(c) => Ok(done.push(c)),
            },
        }
    }
}

/// The type of a list column, read from the first element of the first row's array.
pub open spec fn list_type(name: Seq<char>, first_elem: JsonView) -> Result<ColumnType, Seq<char>> {
    match first_elem {
        JsonView::Str(_) => Ok(ColumnType::List(ElemType::Utf8)),
        JsonView::Number(JsonNumber { as_i64: Some(_), .. }, _) => Ok(ColumnType::List(ElemType::Int64)),
        JsonView::Number(JsonNumber { as_i64: None, .. }, _) => Ok(ColumnType::List(ElemType::Float64)),
        JsonView::Bool(_) => Ok(ColumnType::List(ElemType::Boolean)),
        v => Err(field_message(name, "unsupported array element type '"@ + kind_name(v) + "'"@)),
    }
}

/// The type of a column, read from its value in the first row.
pub open spec fn column_type(name: Seq<char>, first_val: JsonView) -> Result<ColumnType, Seq<char>> {
    match first_val {
        JsonView::Str(_) => Ok(ColumnType::Utf8),
        JsonView::Number(JsonNumber { as_i64: Some(_), .. }, _) => Ok(ColumnType::Int64),
        JsonView::Number(JsonNumber { as_i64: None, .. }, _) => Ok(ColumnType::Float64),
        JsonView::Bool(_) => Ok(ColumnType::Boolean),
        JsonView::Array(items) => if items.len() == 0 {
            Err(field_message(name, "cannot infer element type from empty array in first row"@))
        } else {
            list_type(name, items[0])
        },
        JsonView::Object(_) => Ok(ColumnType::StringMap),
        JsonView::Null => Err(field_message(name, "first row must not be null — cannot infer column type"@)),
    }
}

/// A typed column built from all rows, its type read from `first_val`.
pub open spec fn column(name: Seq<char>, first_val: JsonView, rows: Seq<JsonView>) -> Result<ColumnView, Seq<char>> {
    match column_type(name, first_val) {
        Err(e) => Err(e),
        Ok(t) => match column_cells(t, name, rows) {
            Err(e) => Err(e),
            Ok(cs) => Ok(ColumnView { name, data_type: t, cells: cs }),
        },
    }
}

/// A list column, its element type read from `first_elem`.
pub open spec fn list_column(name: Seq<char>, first_elem: JsonView, rows: Seq<JsonView>) -> Result<ColumnView, Seq<char>> {
    match list_type(name, first_elem) {
        Err(e) => Err(e),
        Ok(t) => match column_cells(t, name, rows) {
            Err(e) => Err(e),
            Ok(cs) => Ok(ColumnView { name, data_type: t, cells: cs }),
        },
    }
}

/// A map column.
pub open spec fn map_column(name: Seq<char>, rows: Seq<JsonView>) -> Result<ColumnView, Seq<char>> {
    match column_cells(ColumnType::StringMap, name, rows) {
        Err(e) => Err(e),
        Ok(cs) => Ok(ColumnView { name, data_type: ColumnType::StringMap, cells: cs }),
    }
}

/// One column per entry of the first row, in its order, or the first column's error.
pub open spec fn columns(first: Seq<(Seq<char>, JsonView)>, rows: Seq<JsonView>) -> Result<Seq<ColumnView>, Seq<char>>
    decreases first.len(),
{
    if first.len() == 0 {
        Ok(Seq::empty())
    } else {
        match columns(first.drop_last(), rows) {
            Err(e) => Err(e),
            Ok(done) => match column(first.last().0, first.last().1, rows) {
                Err(e) => Err(e),
                Ok(c) => Ok(done.push(c)),
            },
        }
    }
}

/// The columns of a record built from rows; the first row decides names and types.
pub open spec fn record_columns(rows: Seq<JsonView>) -> Result<Seq<ColumnView>, Seq<char>> {
    match rows[0] {
        JsonView::Object(first) => columns(first, rows),
        _ => Ok(Seq::empty()),
    }
}

/// Why a request is refused: a text of this library's validation, or the
/// text of the columnar-record crate's refusal.
pub enum RefusalView {
    Text(Seq<char>),
    Columnar(Seq<char>),
}

/// How the columnar-record crate refuses a record without any column.
pub open spec fn no_columns_message() -> Seq<char> {
    "Invalid argument error: must either specify a row count or at least one column"@
}

/// The record batch built from rows: its columns, or why it cannot be built.
/// A batch needs at least one column.
pub open spec fn record_batch(rows: Seq<JsonView>) -> Result<Seq<ColumnView>, RefusalView> {
    match record_columns(rows) {
        Err(m) => Err(RefusalView::Text(m)),
        Ok(cs) => if cs.len() == 0 {
            Err(RefusalView::Columnar(no_columns_message()))
        } else {
            Ok(cs)
        },
    }
}

pub open spec fn is_object(v: JsonView) -> bool {
    v is Object
}

/// What an ingest request is answered: the datasource id and the record's
/// columns and row count, or the reason it is refused.
pub open spec fn ingest(payload: JsonView) -> Result<(Seq<char>, Seq<ColumnView>, nat), RefusalView> {
    match get_field(payload, "datasource_id"@) {
        Some(JsonView::Str(id)) => match get_field(payload, "rows"@) {
            Some(JsonView::Array(rows)) => if rows.len() == 0 {
                Err(RefusalView::Text("rows must be non-empty"@))
            } else if exists|i: int| 0 <= i < rows.len() && !is_object(#[trigger] rows[i]) {
                Err(RefusalView::Text("each row must be a JSON object"@))
            } else {
                match record_batch(rows) {
                    Err(e) => Err(e),
                    Ok(cs) => Ok((id, cs, rows.len())),
                }
            },
            _ => Err(RefusalView::Text("missing or invalid rows"@)),
        },
        _ => Err(RefusalView::Text("missing datasource_id"@)),
    }
}

/// What a request body is answered: refused with the parser's text where the
/// bytes are no JSON document, else as `ingest` answers the document.
pub open spec fn ingest_bytes(body: Seq<u8>) -> Result<(Seq<char>, Seq<ColumnView>, nat), RefusalView> {
    match spec_parse_json(body) {
        Ok(v) => ingest(v),
        Err(m) => Err(RefusalView::Text(m)),
    }
}

// ---------------------------------------------------------------------------
// Facts about the folds
// ---------------------------------------------------------------------------

/// Once a prefix of the rows fails, every longer prefix fails with the same error.
pub proof fn lemma_cells_prefix_err(t: ColumnType, name: Seq<char>, rows: Seq<JsonView>, k: int)
    requires
        0 <= k <= rows.len(),
        column_cells(t, name, rows.take(k)) is Err,
    ensures
        column_cells(t, name, rows) == column_cells(t, name, rows.take(k)),
    decreases rows.len() - k,
{
    if k < rows.len() {
        assert(rows.take(k + 1).drop_last() =~= rows.take(k));
        lemma_cells_prefix_err(t, name, rows, k + 1);
    } else {
        assert(rows.take(k) =~= rows);
    }
}

pub proof fn lemma_elems_prefix_err(t: ElemType, name: Seq<char>, items: Seq<JsonView>, k: int)
    requires
        0 <= k <= items.len(),
        list_elems(t, name, items.take(k)) is Err,
    ensures
        list_elems(t, name, items) == list_elems(t, name, items.take(k)),
    decreases items.len() - k,
{
    if k < items.len() {
        assert(items.take(k + 1).drop_last() =~= items.take(k));
        lemma_elems_prefix_err(t, name, items, k + 1);
    } else {
        assert(items.take(k) =~= items);
    }
}

pub proof fn lemma_columns_prefix_err(first: Seq<(Seq<char>, JsonView)>, rows: Seq<JsonView>, k: int)
    requires
        0 <= k <= first.len(),
        columns(first.take(k), rows) is Err,
    ensures
        columns(first, rows) == columns(first.take(k), rows),
    decreases first.len() - k,
{
    if k < first.len() {
        assert(first.take(k + 1).drop_last() =~= first.take(k));
        lemma_columns_prefix_err(first, rows, k + 1);
    } else {
        assert(first.take(k) =~= first);
    }
}

/// A successful column has one cell per row.
proof fn lemma_cells_len(t: ColumnType, name: Seq<char>, rows: Seq<JsonView>)
    ensures
        column_cells(t, name, rows) matches Ok(cs) ==> cs.len() == rows.len(),
    decreases rows.len(),
{
    if rows.len() > 0 {
        lemma_cells_len(t, name, rows.drop_last());
    }
}

/// An accepted record has one column per field of the first row, in its
/// order and under its name, typed by the field's value there, and each
/// column has one cell per row.
pub proof fn lemma_record_shape(first: Seq<(Seq<char>, JsonView)>, rows: Seq<JsonView>)
    ensures
        columns(first, rows) matches Ok(cs) ==> {
            &&& cs.len() == first.len()
            &&& forall|i: int| 0 <= i < cs.len() ==> {
                &&& (#[trigger] cs[i]).name == first[i].0
                &&& column_type(first[i].0, first[i].1) == Ok::<ColumnType, Seq<char>>(cs[i].data_type)
                &&& cs[i].cells.len() == rows.len()
            }
        },
    decreases first.len(),
{
    if first.len() > 0 {
        lemma_record_shape(first.drop_last(), rows);
        let last = first.last();
        match column_type(last.0, last.1) {
            Ok(t) => lemma_cells_len(t, last.0, rows),
            Err(_) => {},
        }
    }
}

// ---------------------------------------------------------------------------
// What the columns hold
// ---------------------------------------------------------------------------

/// A successful column holds, for each row, the cell of that row's field.
proof fn lemma_cells_each(t: ColumnType, name: Seq<char>, rows: Seq<JsonView>)
    ensures
        column_cells(t, name, rows) matches Ok(cells) ==> {
            &&& cells.len() == rows.len()
            &&& forall|r: int| 0 <= r < rows.len() ==> cell(t, name, get_field(#[trigger] rows[r], name)) == Ok::<CellView, Seq<char>>(cells[r])
        },
    decreases rows.len(),
{
    if rows.len() > 0 {
        lemma_cells_each(t, name, rows.drop_last());
        if let Ok(cells) = column_cells(t, name, rows) {
            let done = column_cells(t, name, rows.drop_last())->Ok_0;
            assert forall|r: int| 0 <= r < rows.len() implies cell(t, name, get_field(#[trigger] rows[r], name)) == Ok::<CellView, Seq<char>>(cells[r]) by {
                if r < rows.len() - 1 {
                    assert(rows.drop_last()[r] == rows[r]);
                    assert(cells[r] == done[r]);
                }
            }
        }
    }
}

/// Rows whose cells all build make the column of exactly those cells.
proof fn lemma_cells_all_ok(t: ColumnType, name: Seq<char>, rows: Seq<JsonView>, cells: Seq<CellView>)
    requires
        cells.len() == rows.len(),
        forall|r: int| 0 <= r < rows.len() ==> cell(t, name, get_field(#[trigger] rows[r], name)) == Ok::<CellView, Seq<char>>(cells[r]),
    ensures
        column_cells(t, name, rows) == Ok::<Seq<CellView>, Seq<char>>(cells),
    decreases rows.len(),
{
    if rows.len() > 0 {
        let n = rows.len() - 1;
        assert forall|r: int| 0 <= r < rows.drop_last().len() implies cell(t, name, get_field(#[trigger] rows.drop_last()[r], name)) == Ok::<CellView, Seq<char>>(cells.drop_last()[r]) by {
            assert(rows.drop_last()[r] == rows[r]);
        }
        lemma_cells_all_ok(t, name, rows.drop_last(), cells.drop_last());
        assert(cell(t, name, get_field(rows[n], name)) == Ok::<CellView, Seq<char>>(cells[n]));
        assert(cells.drop_last().push(cells[n]) =~= cells);
    } else {
        assert(cells =~= Seq::<CellView>::empty());
    }
}

/// A successful list holds, for each element, that element's value.
proof fn lemma_elems_each(t: ElemType, name: Seq<char>, items: Seq<JsonView>)
    ensures
        list_elems(t, name, items) matches Ok(ds) ==> {
            &&& ds.len() == items.len()
            &&& forall|k: int| 0 <= k < items.len() ==> list_elem(t, name, #[trigger] items[k]) == Ok::<Option<DatumView>, Seq<char>>(ds[k])
        },
    decreases items.len(),
{
    if items.len() > 0 {
        lemma_elems_each(t, name, items.drop_last());
        if let Ok(ds) = list_elems(t, name, items) {
            let done = list_elems(t, name, items.drop_last())->Ok_0;
            assert forall|k: int| 0 <= k < items.len() implies list_elem(t, name, #[trigger] items[k]) == Ok::<Option<DatumView>, Seq<char>>(ds[k]) by {
                if k < items.len() - 1 {
                    assert(items.drop_last()[k] == items[k]);
                    assert(ds[k] == done[k]);
                }
            }
        }
    }
}

/// Elements that all read make the list of exactly those values.
proof fn lemma_elems_all_ok(t: ElemType, name: Seq<char>, items: Seq<JsonView>, ds: Seq<Option<DatumView>>)
    requires
        ds.len() == items.len(),
        forall|k: int| 0 <= k < items.len() ==> list_elem(t, name, #[trigger] items[k]) == Ok::<Option<DatumView>, Seq<char>>(ds[k]),
    ensures
        list_elems(t, name, items) == Ok::<Seq<Option<DatumView>>, Seq<char>>(ds),
    decreases items.len(),
{
    if items.len() > 0 {
        let n = items.len() - 1;
        assert forall|k: int| 0 <= k < items.drop_last().len() implies list_elem(t, name, #[trigger] items.drop_last()[k]) == Ok::<Option<DatumView>, Seq<char>>(ds.drop_last()[k]) by {
            assert(items.drop_last()[k] == items[k]);
        }
        lemma_elems_all_ok(t, name, items.drop_last(), ds.drop_last());
        assert(list_elem(t, name, items[n]) == Ok::<Option<DatumView>, Seq<char>>(ds[n]));
        assert(ds.drop_last().push(ds[n]) =~= ds);
    } else {
        assert(ds =~= Seq::<Option<DatumView>>::empty());
    }
}

/// Successful columns hold, in order, the column of each field of the first row.
proof fn lemma_columns_each(first: Seq<(Seq<char>, JsonView)>, rows: Seq<JsonView>)
    ensures
        columns(first, rows) matches Ok(cs) ==> {
            &&& cs.len() == first.len()
            &&& forall|c: int| 0 <= c < first.len() ==> column(#[trigger] first[c].0, first[c].1, rows) == Ok::<ColumnView, Seq<char>>(cs[c])
        },
    decreases first.len(),
{
    if first.len() > 0 {
        lemma_columns_each(first.drop_last(), rows);
        if let Ok(cs) = columns(first, rows) {
            let done = columns(first.drop_last(), rows)->Ok_0;
            assert forall|c: int| 0 <= c < first.len() implies column(#[trigger] first[c].0, first[c].1, rows) == Ok::<ColumnView, Seq<char>>(cs[c]) by {
                if c < first.len() - 1 {
                    assert(first.drop_last()[c] == first[c]);
                    assert(cs[c] == done[c]);
                }
            }
        }
    }
}

/// The field `name` of each row, read as a boolean cell: its boolean, or a
/// null where the field is missing or null.
pub open spec fn boolean_of(v: Option<JsonView>) -> Option<DatumView> {
    match v {
        Some(JsonView::Bool(b)) => Some(DatumView::Boolean(b)),
        _ => None,
    }
}

/// A number element of a float list, read as its float value (a null stays null).
pub open spec fn float_elem_of(v: JsonView) -> Option<DatumView> {
    match v {
        JsonView::Number(n, _) => Some(DatumView::Float64(n.as_f64_bits->Some_0)),
        _ => None,
    }
}

/// A boolean column stores every row's boolean as it is: when the first row's
/// value is a boolean and every row's field is a boolean, missing or null,
/// the column is built, typed Boolean, and the cell of each row is that
/// row's boolean (a null where the field is missing or null).
pub proof fn lemma_boolean_column_keeps_values(name: Seq<char>, first_val: JsonView, rows: Seq<JsonView>)
    requires
        first_val is Bool,
        forall|r: int| 0 <= r < rows.len() ==> match get_field(#[trigger] rows[r], name) {
            None => true,
            Some(JsonView::Null) => true,
            Some(JsonView::Bool(_)) => true,
            _ => false,
        },
    ensures
        column(name, first_val, rows) == Ok::<ColumnView, Seq<char>>(ColumnView {
            name,
            data_type: ColumnType::Boolean,
            cells: Seq::new(rows.len(), |r: int| CellView::Scalar(boolean_of(get_field(rows[r], name)))),
        }),
{
    let cells = Seq::new(rows.len(), |r: int| CellView::Scalar(boolean_of(get_field(rows[r], name))));
    assert forall|r: int| 0 <= r < rows.len() implies cell(ColumnType::Boolean, name, get_field(#[trigger] rows[r], name)) == Ok::<CellView, Seq<char>>(cells[r]) by {
        assert(cells[r] == CellView::Scalar(boolean_of(get_field(rows[r], name))));
    }
    lemma_cells_all_ok(ColumnType::Boolean, name, rows, cells);
}

/// A float list column accepts every number element that has a float value,
/// integer or not, and stores it as that value: when the first row's array
/// starts with a non-integer number and every row's field is missing, null,
/// or an array of nulls and numbers with a float value, the column is built,
/// typed List(Float64), and each row's cell is its array, element by element.
pub proof fn lemma_float_list_column_accepts(name: Seq<char>, first_val: JsonView, rows: Seq<JsonView>)
    requires
        first_val is Array,
        first_val->Array_0.len() > 0,
        first_val->Array_0[0] is Number,
        first_val->Array_0[0]->Number_0.as_i64 is None,
        forall|r: int| 0 <= r < rows.len() ==> match get_field(#[trigger] rows[r], name) {
            None => true,
            Some(JsonView::Null) => true,
            Some(JsonView::Array(items)) => forall|k: int| 0 <= k < items.len() ==> match #[trigger] items[k] {
                JsonView::Null => true,
                JsonView::Number(n, _) => n.as_f64_bits is Some,
                _ => false,
            },
            _ => false,
        },
    ensures
        column(name, first_val, rows) == Ok::<ColumnView, Seq<char>>(ColumnView {
            name,
            data_type: ColumnType::List(ElemType::Float64),
            cells: Seq::new(rows.len(), |r: int| match get_field(rows[r], name) {
                Some(JsonView::Array(items)) => CellView::List(Some(items.map_values(|v: JsonView| float_elem_of(v)))),
                _ => CellView::List(None),
            }),
        }),
{
    let t = ColumnType::List(ElemType::Float64);
    let cells = Seq::new(rows.len(), |r: int| match get_field(rows[r], name) {
        Some(JsonView::Array(items)) => CellView::List(Some(items.map_values(|v: JsonView| float_elem_of(v)))),
        _ => CellView::List(None),
    });
    assert forall|r: int| 0 <= r < rows.len() implies cell(t, name, get_field(#[trigger] rows[r], name)) == Ok::<CellView, Seq<char>>(cells[r]) by {
        match get_field(rows[r], name) {
            Some(JsonView::Array(items)) => {
                let ds = items.map_values(|v: JsonView| float_elem_of(v));
                assert forall|k: int| 0 <= k < items.len() implies list_elem(ElemType::Float64, name, #[trigger] items[k]) == Ok::<Option<DatumView>, Seq<char>>(ds[k]) by {
                    assert(ds[k] == float_elem_of(items[k]));
                }
                lemma_elems_all_ok(ElemType::Float64, name, items, ds);
            },
            _ => {},
        }
    }
    lemma_cells_all_ok(t, name, rows, cells);
}

/// An accepted request's record is made of its rows' values: for a row
/// whose field `name` is a boolean, the Boolean column `name` holds that
/// boolean in the row's cell; for a row whose field `name` is an array, the
/// List(Float64) column `name` holds, in the row's cell, every number element
/// as its float value, in order.
pub proof fn lemma_ingest_keeps_values(payload: JsonView, rows: Seq<JsonView>, c: int, r: int)
    requires
        get_field(payload, "rows"@) == Some(JsonView::Array(rows)),
        ingest(payload) is Ok,
        0 <= c < ingest(payload)->Ok_0.1.len(),
        0 <= r < rows.len(),
    ensures
        ({
            let col = ingest(payload)->Ok_0.1[c];
            &&& col.cells.len() == rows.len()
            &&& col.data_type == ColumnType::Boolean ==> (get_field(rows[r], col.name) matches Some(JsonView::Bool(b))
                ==> col.cells[r] == CellView::Scalar(Some(DatumView::Boolean(b))))
            &&& col.data_type == ColumnType::List(ElemType::Float64) ==> (get_field(rows[r], col.name) matches Some(JsonView::Array(items))
                ==> (col.cells[r] matches CellView::List(Some(ds)) && ds.len() == items.len()
                    && forall|k: int| 0 <= k < items.len() ==> (#[trigger] items[k] matches JsonView::Number(n, _)
                        ==> ds[k] == Some(DatumView::Float64(n.as_f64_bits->Some_0)))))
        }),
{
    let cs = ingest(payload)->Ok_0.1;
    assert(record_batch(rows) == Ok::<Seq<ColumnView>, RefusalView>(cs));
    let first = rows[0]->Object_0;
    assert(rows[0] is Object);
    assert(columns(first, rows) == Ok::<Seq<ColumnView>, Seq<char>>(cs));
    lemma_columns_each(first, rows);
    let col = cs[c];
    assert(column(first[c].0, first[c].1, rows) == Ok::<ColumnView, Seq<char>>(col));
    let name = first[c].0;
    let t = column_type(name, first[c].1)->Ok_0;
    assert(column_cells(t, name, rows) == Ok::<Seq<CellView>, Seq<char>>(col.cells));
    lemma_cells_each(t, name, rows);
    assert(cell(t, name, get_field(rows[r], name)) == Ok::<CellView, Seq<char>>(col.cells[r]));
    if let Some(JsonView::Array(items)) = get_field(rows[r], name) {
        if t == ColumnType::List(ElemType::Float64) {
            lemma_elems_each(ElemType::Float64, name, items);
        }
    }
}

/// The column type of scalar columns of element type `t`.
pub open spec fn scalar_type(t: ElemType) -> ColumnType {
    match t {
        ElemType::Utf8 => ColumnType::Utf8,
        ElemType::Int64 => ColumnType::Int64,
        ElemType::Float64 => ColumnType::Float64,
        ElemType::Boolean => ColumnType::Boolean,
    }
}

/// The value of a JSON value of the kind that element type `t` stores: a
/// string's text, an integer's value, a number's float value, a boolean;
/// nothing for any other value.
pub open spec fn reads_as(t: ElemType, v: JsonView) -> Option<DatumView> {
    match t {
        ElemType::Utf8 => match v {
            JsonView::Str(s) => Some(DatumView::Utf8(s)),
            _ => None,
        },
        ElemType::Int64 => match v {
            JsonView::Number(n, _) => match n.as_i64 {
                Some(i) => Some(DatumView::Int64(i)),
                None => None,
            },
            _ => None,
        },
        ElemType::Float64 => match v {
            JsonView::Number(n, _) => match n.as_f64_bits {
                Some(b) => Some(DatumView::Float64(b)),
                None => None,
            },
            _ => None,
        },
        ElemType::Boolean => match v {
            JsonView::Bool(b) => Some(DatumView::Boolean(b)),
            _ => None,
        },
    }
}

/// A row's field, as a scalar cell of element type `t`: its value, or a null
/// where the field is missing or null.
pub open spec fn scalar_of(t: ElemType, v: Option<JsonView>) -> Option<DatumView> {
    match v {
        Some(x) => reads_as(t, x),
        None => None,
    }
}

/// A row's field is missing, null, or a value of the kind `t` stores.
pub open spec fn fits_scalar(t: ElemType, v: Option<JsonView>) -> bool {
    match v {
        None => true,
        Some(JsonView::Null) => true,
        Some(x) => reads_as(t, x) is Some,
    }
}

/// A row's field is missing, null, or an array of nulls and values of the kind `t` stores.
pub open spec fn fits_list(t: ElemType, v: Option<JsonView>) -> bool {
    match v {
        None => true,
        Some(JsonView::Null) => true,
        Some(JsonView::Array(items)) => forall|k: int| 0 <= k < items.len()
            ==> (#[trigger] items[k] is Null || reads_as(t, items[k]) is Some),
        _ => false,
    }
}

/// A row's field, as a list cell of element type `t`: each element's value
/// (a null for a null element), or a null cell where the field is missing or null.
pub open spec fn list_of(t: ElemType, v: Option<JsonView>) -> CellView {
    match v {
        Some(JsonView::Array(items)) => CellView::List(Some(items.map_values(|x: JsonView| reads_as(t, x)))),
        _ => CellView::List(None),
    }
}

/// A scalar column stores every row's value as it is: when the column's type
/// is read as scalar type `t` and every row's field is missing, null or a
/// value of that kind, the column is built, and the cell of each row is that
/// row's value (a null where the field is missing or null).
pub proof fn lemma_scalar_column_keeps_values(t: ElemType, name: Seq<char>, first_val: JsonView, rows: Seq<JsonView>)
    requires
        column_type(name, first_val) == Ok::<ColumnType, Seq<char>>(scalar_type(t)),
        forall|r: int| 0 <= r < rows.len() ==> fits_scalar(t, get_field(#[trigger] rows[r], name)),
    ensures
        column(name, first_val, rows) == Ok::<ColumnView, Seq<char>>(ColumnView {
            name,
            data_type: scalar_type(t),
            cells: Seq::new(rows.len(), |r: int| CellView::Scalar(scalar_of(t, get_field(rows[r], name)))),
        }),
{
    let cells = Seq::new(rows.len(), |r: int| CellView::Scalar(scalar_of(t, get_field(rows[r], name))));
    assert forall|r: int| 0 <= r < rows.len() implies cell(scalar_type(t), name, get_field(#[trigger] rows[r], name)) == Ok::<CellView, Seq<char>>(cells[r]) by {
        assert(fits_scalar(t, get_field(rows[r], name)));
        assert(cells[r] == CellView::Scalar(scalar_of(t, get_field(rows[r], name))));
    }
    lemma_cells_all_ok(scalar_type(t), name, rows, cells);
}

/// A list column stores every element of every row's array as it is: when
/// the column's type is read as List(`t`) and every row's field is missing,
/// null or an array of nulls and values of that kind (for floats: any number
/// with a float value, integer or not), the column is built, and each row's
/// cell is its array, element by element.
pub proof fn lemma_list_column_keeps_values(t: ElemType, name: Seq<char>, first_val: JsonView, rows: Seq<JsonView>)
    requires
        column_type(name, first_val) == Ok::<ColumnType, Seq<char>>(ColumnType::List(t)),
        forall|r: int| 0 <= r < rows.len() ==> fits_list(t, get_field(#[trigger] rows[r], name)),
    ensures
        column(name, first_val, rows) == Ok::<ColumnView, Seq<char>>(ColumnView {
            name,
            data_type: ColumnType::List(t),
            cells: Seq::new(rows.len(), |r: int| list_of(t, get_field(rows[r], name))),
        }),
{
    let ct = ColumnType::List(t);
    let cells = Seq::new(rows.len(), |r: int| list_of(t, get_field(rows[r], name)));
    assert forall|r: int| 0 <= r < rows.len() implies cell(ct, name, get_field(#[trigger] rows[r], name)) == Ok::<CellView, Seq<char>>(cells[r]) by {
        assert(fits_list(t, get_field(rows[r], name)));
        match get_field(rows[r], name) {
            Some(JsonView::Array(items)) => {
                let ds = items.map_values(|x: JsonView| reads_as(t, x));
                assert forall|k: int| 0 <= k < items.len() implies list_elem(t, name, #[trigger] items[k]) == Ok::<Option<DatumView>, Seq<char>>(ds[k]) by {
                    assert(items[k] is Null || reads_as(t, items[k]) is Some);
                    assert(ds[k] == reads_as(t, items[k]));
                }
                lemma_elems_all_ok(t, name, items, ds);
            },
            _ => {},
        }
    }
    lemma_cells_all_ok(ct, name, rows, cells);
}

/// An accepted request's record is made of its rows' values, as they are:
/// in a scalar column, the cell of a row is the row's value (a null where
/// the field is missing or null); in a list column, the cell of a row whose
/// field is an array holds each element's value in order (a null for a null
/// element); in a map column, the cell of a row whose field is an object
/// holds its entries in order, each value as its JSON text.
pub proof fn lemma_ingest_stores_values(payload: JsonView, rows: Seq<JsonView>, c: int, r: int)
    requires
        get_field(payload, "rows"@) == Some(JsonView::Array(rows)),
        ingest(payload) is Ok,
        0 <= c < ingest(payload)->Ok_0.1.len(),
        0 <= r < rows.len(),
    ensures
        ({
            let col = ingest(payload)->Ok_0.1[c];
            let v = get_field(rows[r], col.name);
            &&& col.cells.len() == rows.len()
            &&& forall|t: ElemType| col.data_type == scalar_type(t)
                ==> #[trigger] fits_scalar(t, v) && col.cells[r] == CellView::Scalar(scalar_of(t, v))
            &&& forall|t: ElemType| col.data_type == ColumnType::List(t) && v is Some && !(v->Some_0 is Null)
                ==> (#[trigger] fits_list(t, v) && col.cells[r] == list_of(t, v))
            &&& col.data_type == ColumnType::StringMap ==> (v matches Some(JsonView::Object(entries))
                ==> col.cells[r] == CellView::Entries(Some(entry_texts(entries))))
        }),
{
    let cs = ingest(payload)->Ok_0.1;
    assert(record_batch(rows) == Ok::<Seq<ColumnView>, RefusalView>(cs));
    let first = rows[0]->Object_0;
    assert(rows[0] is Object);
    assert(columns(first, rows) == Ok::<Seq<ColumnView>, Seq<char>>(cs));
    lemma_columns_each(first, rows);
    let col = cs[c];
    assert(column(first[c].0, first[c].1, rows) == Ok::<ColumnView, Seq<char>>(col));
    let name = first[c].0;
    let ct = column_type(name, first[c].1)->Ok_0;
    assert(column_cells(ct, name, rows) == Ok::<Seq<CellView>, Seq<char>>(col.cells));
    lemma_cells_each(ct, name, rows);
    let v = get_field(rows[r], name);
    assert(cell(ct, name, v) == Ok::<CellView, Seq<char>>(col.cells[r]));
    assert forall|t: ElemType| col.data_type == scalar_type(t)
        implies #[trigger] fits_scalar(t, v) && col.cells[r] == CellView::Scalar(scalar_of(t, v)) by {
        assert(ct == scalar_type(t));
    }
    assert forall|t: ElemType| col.data_type == ColumnType::List(t) && v is Some && !(v->Some_0 is Null)
        implies (#[trigger] fits_list(t, v) && col.cells[r] == list_of(t, v)) by {
        assert(ct == ColumnType::List(t));
        if let Some(JsonView::Array(items)) = v {
            lemma_elems_each(t, name, items);
            let ds = list_elems(t, name, items)->Ok_0;
            assert forall|k: int| 0 <= k < items.len() implies (#[trigger] items[k] is Null || reads_as(t, items[k]) is Some) by {
                assert(list_elem(t, name, items[k]) == Ok::<Option<DatumView>, Seq<char>>(ds[k]));
            }
            assert(ds =~= items.map_values(|x: JsonView| reads_as(t, x))) by {
                assert forall|k: int| 0 <= k < items.len() implies ds[k] == items.map_values(|x: JsonView| reads_as(t, x))[k] by {
                    assert(list_elem(t, name, items[k]) == Ok::<Option<DatumView>, Seq<char>>(ds[k]));
                }
            }
        }
    }
}

// ---------------------------------------------------------------------------
// Error texts
// ---------------------------------------------------------------------------

/// `field '<name>': <detail>`
fn field_error(name: &String, detail: &str) -> (r: String)
    ensures
        r@ == field_message(name@, detail@),
{
    let mut m = String::from_str("field '");
    m.append(name.as_str());
    m.append("': ");
    m.append(detail);
    m
}

/// `field '<name>': <detail><tail>`
fn field_error_with(name: &String, detail: &str, tail: &str) -> (r: String)
    ensures
        r@ == field_message(name@, detail@ + tail@),
{
    let mut m = field_error(name, detail);
    m.append(tail);
    assert(m@ =~= field_message(name@, detail@ + tail@));
    m
}

// ---------------------------------------------------------------------------
// Cells
// ---------------------------------------------------------------------------

/// A cell of a scalar column.
pub fn scalar_cell_of(t: ElemType, name: &String, v: Option<&JsonValue>) -> (r: Result<Option<Datum>, String>)
    ensures
        match r {
            Ok(d) => scalar_cell(t, name@, opt_view(v)) == Ok::<_, Seq<char>>(opt_datum_view(d)),
            Err(m) => scalar_cell(t, name@, opt_view(v)) == Err::<Option<DatumView>, Seq<char>>(m@),
        },
{
    match v {
        None => Ok(None),
        Some(JsonValue::Null) => Ok(None),
        Some(v) => match t {
            ElemType::Utf8 => match v {
                JsonValue::String(s) => Ok(Some(Datum::Utf8(s.clone()))),
                _ => Err(field_error_with(name, "expected string, got ", json_type(v))),
            },
            ElemType::Int64 => match v {
                JsonValue::Number(n, _) => match n.as_i64 {
                    Some(i) => Ok(Some(Datum::Int64(i))),
                    None => Err(field_error(name, "expected integer, got float")),
                },
                _ => Err(field_error_with(name, "expected integer, got ", json_type(v))),
            },
            ElemType::Float64 => match v {
                JsonValue::Number(n, _) => match n.as_f64_bits {
                    Some(b) => Ok(Some(Datum::Float64(b))),
                    None => Err(field_error(name, "number out of f64 range")),
                },
                _ => Err(field_error_with(name, "expected number, got ", json_type(v))),
            },
            ElemType::Boolean => match v {
                JsonValue::Bool(b) => Ok(Some(Datum::Boolean(*b))),
                _ => Err(field_error_with(name, "expected boolean, got ", json_type(v))),
            },
        },
    }
}

/// One element of a list cell.
pub fn list_elem_of(t: ElemType, name: &String, v: &JsonValue) -> (r: Result<Option<Datum>, String>)
    ensures
        match r {
            Ok(d) => list_elem(t, name@, v@) == Ok::<_, Seq<char>>(opt_datum_view(d)),
            Err(m) => list_elem(t, name@, v@) == Err::<Option<DatumView>, Seq<char>>(m@),
        },
{
    match v {
        JsonValue::Null => Ok(None),
        _ => match t {
            ElemType::Utf8 => match v {
                JsonValue::String(s) => Ok(Some(Datum::Utf8(s.clone()))),
                _ => Err(field_error(name, "array element type mismatch, expected string")),
            },
            ElemType::Int64 => match v {
                JsonValue::Number(n, _) if n.as_i64.is_some() => Ok(Some(Datum::Int64(n.as_i64.unwrap()))),
                _ => Err(field_error(name, "array element type mismatch, expected integer")),
            },
            ElemType::Float64 => match v {
                JsonValue::Number(n, _) if n.as_f64_bits.is_some() => Ok(Some(Datum::Float64(n.as_f64_bits.unwrap()))),
                _ => Err(field_error(name, "array element type mismatch, expected number")),
            },
            ElemType::Boolean => match v {
                JsonValue::Bool(b) => Ok(Some(Datum::Boolean(*b))),
                _ => Err(field_error(name, "array element type mismatch, expected boolean")),
            },
        },
    }
}

/// The elements of a list cell, in order.
pub fn list_elems_of(t: ElemType, name: &String, items: &Vec<JsonValue>) -> (r: Result<Vec<Option<Datum>>, String>)
    ensures
        match r {
            Ok(ds) => list_elems(t, name@, views(items@)) == Ok::<_, Seq<char>>(datums_view(ds@)),
            Err(m) => list_elems(t, name@, views(items@)) == Err::<Seq<Option<DatumView>>, Seq<char>>(m@),
        },
{
    let ghost all = views(items@);
    let mut out: Vec<Option<Datum>> = Vec::new();
    let mut i: usize = 0;
    assert(all.take(0) =~= Seq::<JsonView>::empty());
    assert(datums_view(out@) =~= Seq::<Option<DatumView>>::empty());
    while i < items.len()
        invariant
            0 <= i <= items.len(),
            all == views(items@),
            list_elems(t, name@, all.take(i as int)) == Ok::<Seq<Option<DatumView>>, Seq<char>>(datums_view(out@)),
        decreases items.len() - i,
    {
        assert(all.take(i + 1).drop_last() =~= all.take(i as int));
        match list_elem_of(t, name, &items[i]) {
            Ok(d) => {
                let ghost before = out@;
                out.push(d);
                assert(datums_view(out@) =~= datums_view(before).push(opt_datum_view(d)));
            },
            Err(m) => {
                proof {
                    lemma_elems_prefix_err(t, name@, all, i + 1);
                }
                return Err(m);
            },
        }
        i = i + 1;
    }
    assert(all.take(items.len() as int) =~= all);
    Ok(out)
}


/// A cell of a list column.
pub fn list_cell_of(t: ElemType, name: &String, v: Option<&JsonValue>) -> (r: Result<Option<Vec<Option<Datum>>>, String>)
    ensures
        match r {
            Ok(None) => list_cell(t, name@, opt_view(v)) == Ok::<_, Seq<char>>(None::<Seq<Option<DatumView>>>),
            Ok(Some(ds)) => list_cell(t, name@, opt_view(v)) == Ok::<_, Seq<char>>(Some(datums_view(ds@))),
            Err(m) => list_cell(t, name@, opt_view(v)) == Err::<Option<Seq<Option<DatumView>>>, Seq<char>>(m@),
        },
{
    match v {
        None => Ok(None),
        Some(JsonValue::Null) => Ok(None),
        Some(JsonValue::Array(items)) => {
            proof {
                lemma_array_view(*items);
            }
            match list_elems_of(t, name, items) {
                Ok(ds) => Ok(Some(ds)),
                Err(m) => Err(m),
            }
        },
        Some(v) => Err(field_error_with(name, "expected array, got ", json_type(v))),
    }
}

/// A cell of a map column: the row's object entries, each value as its JSON text.
pub fn map_cell_of(name: &String, v: Option<&JsonValue>) -> (r: Result<Option<Vec<(String, String)>>, String>)
    ensures
        match r {
            Ok(None) => map_cell(name@, opt_view(v)) == Ok::<_, Seq<char>>(None::<Seq<(Seq<char>, Seq<char>)>>),
            Ok(Some(e)) => map_cell(name@, opt_view(v)) == Ok::<_, Seq<char>>(Some(texts_view(e@))),
            Err(m) => map_cell(name@, opt_view(v)) == Err::<Option<Seq<(Seq<char>, Seq<char>)>>, Seq<char>>(m@),
        },
{
    match v {
        None => Ok(None),
        Some(JsonValue::Null) => Ok(None),
        Some(JsonValue::Object(entries)) => {
            proof {
                lemma_object_view(*entries);
            }
            let ghost ev = entries_view(entries@);
            let mut out: Vec<(String, String)> = Vec::new();
            let mut i: usize = 0;
            while i < entries.len()
                invariant
                    0 <= i <= entries.len(),
                    ev == entries_view(entries@),
                    out.len() == i,
                    forall|j: int| 0 <= j < i ==> #[trigger] texts_view(out@)[j] == entry_texts(ev)[j],
                decreases entries.len() - i,
            {
                let text = json_text(&entries[i].1);
                let ghost before = out@;
                out.push((entries[i].0.clone(), text));
                proof {
                    assert(ev[i as int] == (entries@[i as int].0@, entries@[i as int].1@));
                    assert(texts_view(out@)[i as int] == entry_texts(ev)[i as int]);
                    assert forall|j: int| 0 <= j < i + 1 implies #[trigger] texts_view(out@)[j] == entry_texts(ev)[j] by {
                        if j < i {
                            assert(out@[j] == before[j]);
                            assert(texts_view(before)[j] == entry_texts(ev)[j]);
                        }
                    }
                }
                i = i + 1;
            }
            assert(texts_view(out@) =~= entry_texts(ev));
            Ok(Some(out))
        },
        Some(v) => Err(field_error_with(name, "expected object, got ", json_type(v))),
    }
}

/// A cell of a column of type `t`.
pub fn cell_of(t: ColumnType, name: &String, v: Option<&JsonValue>) -> (r: Result<Cell, String>)
    ensures
        match r {
            Ok(c) => cell(t, name@, opt_view(v)) == Ok::<_, Seq<char>>(cell_view(c)),
            Err(m) => cell(t, name@, opt_view(v)) == Err::<CellView, Seq<char>>(m@),
        },
{
    let scalar = match t {
        ColumnType::Utf8 => Some(ElemType::Utf8),
        ColumnType::Int64 => Some(ElemType::Int64),
        ColumnType::Float64 => Some(ElemType::Float64),
        ColumnType::Boolean => Some(ElemType::Boolean),
        _ => None,
    };
    match scalar {
        Some(e) => match scalar_cell_of(e, name, v) {
            Ok(d) => Ok(Cell::Scalar(d)),
            Err(m) => Err(m),
        },
        None => match t {
            ColumnType::List(e) => match list_cell_of(e, name, v) {
                Ok(l) => Ok(Cell::List(l)),
                Err(m) => Err(m),
            },
            _ => match map_cell_of(name, v) {
                Ok(m) => Ok(Cell::Entries(m)),
                Err(m) => Err(m),
            },
        },
    }
}

/// The cells of column `name` of type `t`, one per row, in row order.
pub fn column_cells_of(t: ColumnType, name: &String, rows: &Vec<JsonValue>) -> (r: Result<Vec<Cell>, String>)
    ensures
        match r {
            Ok(cs) => column_cells(t, name@, views(rows@)) == Ok::<_, Seq<char>>(cells_view(cs@)) && cs.len() == rows.len(),
            Err(m) => column_cells(t, name@, views(rows@)) == Err::<Seq<CellView>, Seq<char>>(m@),
        },
{
    let ghost all = views(rows@);
    let mut out: Vec<Cell> = Vec::new();
    let mut i: usize = 0;
    assert(all.take(0) =~= Seq::<JsonView>::empty());
    assert(cells_view(out@) =~= Seq::<CellView>::empty());
    while i < rows.len()
        invariant
            0 <= i <= rows.len(),
            all == views(rows@),
            out.len() == i,
            column_cells(t, name@, all.take(i as int)) == Ok::<Seq<CellView>, Seq<char>>(cells_view(out@)),
        decreases rows.len() - i,
    {
        assert(all.take(i + 1).drop_last() =~= all.take(i as int));
        let v = get_field_of(&rows[i], name);
        match cell_of(t, name, v) {
            Ok(c) => {
                let ghost before = out@;
                out.push(c);
                assert(cells_view(out@) =~= cells_view(before).push(cell_view(c)));
            },
            Err(m) => {
                proof {
                    lemma_cells_prefix_err(t, name@, all, i + 1);
                }
                return Err(m);
            },
        }
        i = i + 1;
    }
    assert(all.take(rows.len() as int) =~= all);
    Ok(out)
}


// ---------------------------------------------------------------------------
// Columns and records
// ---------------------------------------------------------------------------

/// A list column whose element type is read from `first_elem`, the first
/// element of the first row's array.
pub fn build_list_column(name: &String, first_elem: &JsonValue, rows: &Vec<JsonValue>) -> (r: Result<Column, String>)
    ensures
        match r {
            Ok(c) => list_column(name@, first_elem@, views(rows@)) == Ok::<_, Seq<char>>(c@) && c.cells.len() == rows.len(),
            Err(m) => list_column(name@, first_elem@, views(rows@)) == Err::<ColumnView, Seq<char>>(m@),
        },
{
    let elem = match first_elem {
        JsonValue::String(_) => ElemType::Utf8,
        JsonValue::Number(n, _) => if n.as_i64.is_some() {
            ElemType::Int64
        } else {
            ElemType::Float64
        },
        JsonValue::Bool(_) => ElemType::Boolean,
        v => {
            return Err(field_error_with3(name, "unsupported array element type '", json_type(v), "'"));
        },
    };
    let t = ColumnType::List(elem);
    match column_cells_of(t, name, rows) {
        Ok(cells) => Ok(Column { name: name.clone(), data_type: t, cells }),
        Err(m) => Err(m),
    }
}

/// A map column: each row's cell holds the entries of that row's object, in
/// order, each value kept as a JSON document; a missing or null field is a
/// null cell.
pub fn build_map_column(name: &String, rows: &Vec<JsonValue>) -> (r: Result<Column, String>)
    ensures
        match r {
            Ok(c) => map_column(name@, views(rows@)) == Ok::<_, Seq<char>>(c@) && c.cells.len() == rows.len(),
            Err(m) => map_column(name@, views(rows@)) == Err::<ColumnView, Seq<char>>(m@),
        },
{
    match column_cells_of(ColumnType::StringMap, name, rows) {
        Ok(cells) => Ok(Column { name: name.clone(), data_type: ColumnType::StringMap, cells }),
        Err(m) => Err(m),
    }
}

/// A column whose type is read from `first_val`, its value in the first row.
pub fn build_column(name: &String, first_val: &JsonValue, rows: &Vec<JsonValue>) -> (r: Result<Column, String>)
    ensures
        match r {
            Ok(c) => column(name@, first_val@, views(rows@)) == Ok::<_, Seq<char>>(c@) && c.cells.len() == rows.len(),
            Err(m) => column(name@, first_val@, views(rows@)) == Err::<ColumnView, Seq<char>>(m@),
        },
{
    let t = match first_val {
        JsonValue::String(_) => ColumnType::Utf8,
        JsonValue::Number(n, _) => if n.as_i64.is_some() {
            ColumnType::Int64
        } else {
            ColumnType::Float64
        },
        JsonValue::Bool(_) => ColumnType::Boolean,
        JsonValue::Array(arr) => {
            proof {
                lemma_array_view(*arr);
            }
            if arr.len() == 0 {
                return Err(field_error(name, "cannot infer element type from empty array in first row"));
            }
            return build_list_column(name, &arr[0], rows);
        },
        JsonValue::Object(_) => {
            return build_map_column(name, rows);
        },
        JsonValue::Null => {
            return Err(field_error(name, "first row must not be null — cannot infer column type"));
        },
    };
    match column_cells_of(t, name, rows) {
        Ok(cells) => Ok(Column { name: name.clone(), data_type: t, cells }),
        Err(m) => Err(m),
    }
}

/// `field '<name>': <detail><middle><tail>`
fn field_error_with3(name: &String, detail: &str, middle: &str, tail: &str) -> (r: String)
    ensures
        r@ == field_message(name@, detail@ + middle@ + tail@),
{
    let mut m = field_error_with(name, detail, middle);
    m.append(tail);
    assert(m@ =~= field_message(name@, detail@ + middle@ + tail@));
    m
}

/// Every column of the record has one cell per row.
pub open spec fn record_wf(r: Record) -> bool {
    forall|i: int| 0 <= i < r.columns.len() ==> (#[trigger] r.columns[i]).cells.len() == r.num_rows
}

/// Why a request is refused.
#[derive(Debug)]
pub enum IngestRefusal {
    /// The payload does not validate; the text says why.
    Invalid(String),
    /// The columnar-record crate refuses the record; the text of its error.
    Arrow(String),
}

impl IngestRefusal {
    pub open spec fn view(&self) -> RefusalView {
        match self {
            IngestRefusal::Invalid(m) => RefusalView::Text(m@),
            IngestRefusal::Arrow(m) => RefusalView::Columnar(m@),
        }
    }
}

/// `arrow::record_batch::RecordBatch::try_new` with an empty schema and no
/// columns, as a record with no column would be built. With no row count
/// given, arrow refuses such a batch with
/// `ArrowError::InvalidArgumentError("must either specify a row count or at
/// least one column")`, whose `Display` text the result carries.
#[verifier::external_body]
fn record_batch_without_columns() -> (r: Result<(), String>)
    ensures
        r is Err,
        r->Err_0@ == no_columns_message(),
{
    match arrow::record_batch::RecordBatch::try_new(std::sync::Arc::new(arrow::datatypes::Schema::empty()), std::vec::Vec::new()) {
        Ok(_) => Ok(()),
        Err(e) => Err(e.to_string()),
    }
}

/// The refusal of a record without any column, as the columnar-record crate gives it.
fn no_columns<T>() -> (r: Result<T, IngestRefusal>)
    ensures
        r matches Err(e) && e.view() == RefusalView::Columnar(no_columns_message()),
{
    match record_batch_without_columns() {
        Err(m) => Err(IngestRefusal::Arrow(m)),
        Ok(_) => {
            assert(false);
            Err(IngestRefusal::Invalid(String::new()))
        },
    }
}

/// The record of the rows: one column per entry of the first row, in its
/// order, each typed by its value there and filled from every row.
pub fn build_record_batch(rows: &Vec<JsonValue>) -> (r: Result<Record, IngestRefusal>)
    requires
        rows.len() > 0,
    ensures
        match r {
            Ok(rec) => record_batch(views(rows@)) == Ok::<_, RefusalView>(columns_view(rec.columns@))
                && rec.num_rows == rows.len() && record_wf(rec),
            Err(e) => record_batch(views(rows@)) == Err::<Seq<ColumnView>, RefusalView>(e.view()),
        },
{
    let ghost all = views(rows@);
    let first = match &rows[0] {
        JsonValue::Object(e) => e,
        _ => {
            return no_columns();
        },
    };
    proof {
        lemma_object_view(*first);
    }
    let ghost fv = entries_view(first@);
    assert(all[0] == JsonView::Object(fv));
    let mut cols: Vec<Column> = Vec::new();
    let mut i: usize = 0;
    assert(fv.take(0) =~= Seq::<(Seq<char>, JsonView)>::empty());
    assert(columns_view(cols@) =~= Seq::<ColumnView>::empty());
    while i < first.len()
        invariant
            0 <= i <= first.len(),
            all == views(rows@),
            fv == entries_view(first@),
            all[0] == JsonView::Object(fv),
            columns(fv.take(i as int), all) == Ok::<Seq<ColumnView>, Seq<char>>(columns_view(cols@)),
            forall|j: int| 0 <= j < cols.len() ==> (#[trigger] cols[j]).cells.len() == rows.len(),
        decreases first.len() - i,
    {
        assert(fv.take(i + 1).drop_last() =~= fv.take(i as int));
        assert(fv.take(i + 1).last() == (first[i as int].0@, first[i as int].1@));
        match build_column(&first[i].0, &first[i].1, rows) {
            Ok(c) => {
                let ghost before = cols@;
                cols.push(c);
                assert(columns_view(cols@) =~= columns_view(before).push(c@));
            },
            Err(m) => {
                proof {
                    lemma_columns_prefix_err(fv, all, i + 1);
                }
                return Err(IngestRefusal::Invalid(m));
            },
        }
        i = i + 1;
    }
    assert(fv.take(first.len() as int) =~= fv);
    if cols.len() == 0 {
        return no_columns();
    }
    Ok(Record { columns: cols, num_rows: rows.len() })
}

/// An accepted ingest request: the datasource it comes from and its rows.
pub struct IngestRequest {
    pub datasource_id: String,
    pub record: Record,
}

/// Parses a request body and validates it as `ingest_payload` does. An error
/// is why the request is refused (status 400).
pub fn ingest_body(body: &[u8]) -> (r: Result<IngestRequest, IngestRefusal>)
    ensures
        match r {
            Ok(req) => ingest_bytes(body@) == Ok::<_, RefusalView>((req.datasource_id@, columns_view(req.record.columns@), req.record.num_rows as nat))
                && record_wf(req.record),
            Err(e) => ingest_bytes(body@) == Err::<(Seq<char>, Seq<ColumnView>, nat), RefusalView>(e.view()),
        },
{
    match parse_json(body) {
        Ok(v) => ingest_payload(&v),
        Err(m) => Err(IngestRefusal::Invalid(m)),
    }
}

/// Validates an ingest payload and builds its record. An error is why the
/// request is refused (status 400).
pub fn ingest_payload(payload: &JsonValue) -> (r: Result<IngestRequest, IngestRefusal>)
    ensures
        match r {
            Ok(req) => ingest(payload@) == Ok::<_, RefusalView>((req.datasource_id@, columns_view(req.record.columns@), req.record.num_rows as nat))
                && record_wf(req.record),
            Err(e) => ingest(payload@) == Err::<(Seq<char>, Seq<ColumnView>, nat), RefusalView>(e.view()),
        },
{
    let id_key = String::from_str("datasource_id");
    let datasource_id = match get_field_of(payload, &id_key) {
        Some(JsonValue::String(s)) => s.clone(),
        _ => {
            return Err(IngestRefusal::Invalid(String::from_str("missing datasource_id")));
        },
    };
    let rows_key = String::from_str("rows");
    let rows = match get_field_of(payload, &rows_key) {
        Some(JsonValue::Array(r)) => r,
        _ => {
            return Err(IngestRefusal::Invalid(String::from_str("missing or invalid rows")));
        },
    };
    proof {
        lemma_array_view(*rows);
    }
    let ghost rv = views(rows@);
    if rows.len() == 0 {
        return Err(IngestRefusal::Invalid(String::from_str("rows must be non-empty")));
    }
    let mut i: usize = 0;
    while i < rows.len()
        invariant
            0 <= i <= rows.len(),
            rv == views(rows@),
            rv.len() > 0,
            get_field(payload@, "datasource_id"@) == Some(JsonView::Str(datasource_id@)),
            get_field(payload@, "rows"@) == Some(JsonView::Array(rv)),
            forall|j: int| 0 <= j < i ==> is_object(#[trigger] rv[j]),
        decreases rows.len() - i,
    {
        match &rows[i] {
            JsonValue::Object(_) => {},
            _ => {
                assert(!is_object(rv[i as int]));
                return Err(IngestRefusal::Invalid(String::from_str("each row must be a JSON object")));
            },
        }
        i = i + 1;
    }
    match build_record_batch(rows) {
        Ok(record) => Ok(IngestRequest { datasource_id, record }),
        Err(e) => Err(e),
    }
}


/// Configuration of the HTTP receiver.
#[derive(Debug)]
pub struct HttpReceiverConfig {
    /// TCP address to listen on.
    pub endpoint: String,
}

impl Default for HttpReceiverConfig {
    fn default() -> (r: HttpReceiverConfig)
        ensures
            r.endpoint@ == "0.0.0.0:4318"@,
    {
        HttpReceiverConfig { endpoint: String::from_str("0.0.0.0:4318") }
    }
}

/// The event an accepted request becomes: its record, received at
/// `received_at`, its source attributes naming the datasource.
pub fn ingest_event(req: IngestRequest, received_at: std::time::SystemTime) -> (e: Event)
    ensures
        *e.record == req.record,
        e.received_at == received_at,
        e.source@ == Map::<Seq<char>, AttrValue>::empty().insert(crate::attrs::datasource::ID@, AttrValue::String(req.datasource_id)),
{
    let mut source: NamedTable<AttrValue> = NamedTable::new();
    source.insert(String::from_str(crate::attrs::datasource::ID), AttrValue::String(req.datasource_id));
    Event { source, record: std::sync::Arc::new(req.record), received_at }
}

} // verus!
