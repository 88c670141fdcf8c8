use vstd::prelude::*;
use crate::json::{JsonValue, JsonView};

verus! {

/// Element type of a list column.
#[derive(PartialEq, Eq, Structural, Clone, Copy, Debug)]
pub enum ElemType {
    Utf8,
    Int64,
    Float64,
    Boolean,
}

/// Type of a record column. Every column is nullable.
#[derive(PartialEq, Eq, Structural, Clone, Copy, Debug)]
pub enum ColumnType {
    Utf8,
    Int64,
    Float64,
    Boolean,
    List(ElemType),
    /// Map from string keys to the JSON text of each value: a cell holds the
    /// entries of its row's object, in order.
    StringMap,
}

/// One non-null scalar. Floats are carried as their IEEE-754 bit pattern.
#[derive(Debug, Clone)]
pub enum Datum {
    Utf8(String),
    Int64(i64),
    Float64(u64),
    Boolean(bool),
}

pub enum DatumView {
    Utf8(Seq<char>),
    Int64(i64),
    Float64(u64),
    Boolean(bool),
}

/// One cell of a column: `None` is a null.
#[derive(Debug, Clone)]
pub enum Cell {
    Scalar(Option<Datum>),
    List(Option<Vec<Option<Datum>>>),
    Entries(Option<Vec<(String, String)>>),
}

pub enum CellView {
    Scalar(Option<DatumView>),
    List(Option<Seq<Option<DatumView>>>),
    Entries(Option<Seq<(Seq<char>, Seq<char>)>>),
}

/// A named, typed column.
#[derive(Debug, Clone)]
pub struct Column {
    pub name: String,
    pub data_type: ColumnType,
    pub cells: Vec<Cell>,
}

pub struct ColumnView {
    pub name: Seq<char>,
    pub data_type: ColumnType,
    pub cells: Seq<CellView>,
}

/// A columnar record: columns of equal length, one entry per row.
#[derive(Debug, Clone)]
pub struct Record {
    pub columns: Vec<Column>,
    pub num_rows: usize,
}

pub open spec fn datum_view(d: Datum) -> DatumView {
    match d {
        Datum::Utf8(s) => DatumView::Utf8(s@),
        Datum::Int64(i) => DatumView::Int64(i),
        Datum::Float64(b) => DatumView::Float64(b),
        Datum::Boolean(b) => DatumView::Boolean(b),
    }
}

pub open spec fn opt_datum_view(d: Option<Datum>) -> Option<DatumView> {
    match d {
        Some(d) => Some(datum_view(d)),
        None => None,
    }
}

pub open spec fn datums_view(s: Seq<Option<Datum>>) -> Seq<Option<DatumView>> {
    s.map_values(|d: Option<Datum>| opt_datum_view(d))
}

/// The model of an object's entries.
pub open spec fn entries_view(s: Seq<(String, JsonValue)>) -> Seq<(Seq<char>, JsonView)> {
    s.map_values(|e: (String, JsonValue)| (e.0@, e.1@))
}

/// The model of a map cell's entries: keys with the JSON text of their values.
pub open spec fn texts_view(s: Seq<(String, String)>) -> Seq<(Seq<char>, Seq<char>)> {
    s.map_values(|e: (String, String)| (e.0@, e.1@))
}

pub open spec fn cell_view(c: Cell) -> CellView {
    match c {
        Cell::Scalar(d) => CellView::Scalar(opt_datum_view(d)),
        Cell::List(None) => CellView::List(None),
        Cell::List(Some(v)) => CellView::List(Some(datums_view(v@))),
        Cell::Entries(None) => CellView::Entries(None),
        Cell::Entries(Some(e)) => CellView::Entries(Some(texts_view(e@))),
    }
}

pub open spec fn cells_view(s: Seq<Cell>) -> Seq<CellView> {
    s.map_values(|c: Cell| cell_view(c))
}

impl Column {
    pub open spec fn view(&self) -> ColumnView {
        ColumnView { name: self.name@, data_type: self.data_type, cells: cells_view(self.cells@) }
    }
}

pub open spec fn columns_view(s: Seq<Column>) -> Seq<ColumnView> {
    s.map_values(|c: Column| c@)
}

/// The entries of an object, as the model of the document reads them.
pub proof fn lemma_object_view(e: Vec<(String, JsonValue)>)
    ensures
        JsonValue::Object(e)@ == JsonView::Object(entries_view(e@)),
{
    assert(JsonValue::Object(e)@->Object_0 =~= entries_view(e@));
}

} // verus!
