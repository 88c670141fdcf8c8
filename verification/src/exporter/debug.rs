use vstd::prelude::*;
use crate::record::{Column, ColumnType};
use crate::types::{Batch, Event, total_rows};

verus! {

/// How much the debug exporter reports of each batch.
#[derive(PartialEq, Eq, Structural, Clone, Copy, Debug)]
pub enum Verbosity {
    /// Event and row counts of the batch.
    Basic,
    /// Per event: its source, row count and schema.
    Normal,
    /// Per event: its source, row count and a table of its rows.
    Detailed,
}

/// Configuration of the debug exporter.
#[derive(Clone, Copy, Debug)]
pub struct Config {
    pub verbosity: Verbosity,
}

impl Default for Config {
    fn default() -> (r: Config)
        ensures
            r.verbosity == Verbosity::Basic,
    {
        Config { verbosity: Verbosity::Basic }
    }
}

/// What is reported of one event.
pub struct EventSummary {
    /// Position of the event in its batch.
    pub index: usize,
    pub rows: usize,
    /// Column names and types, in order.
    pub fields: Vec<(String, ColumnType)>,
}

/// What the debug exporter reports of a batch.
pub enum DebugReport {
    Basic { events: usize, rows: usize },
    Normal(Vec<EventSummary>),
    Detailed(Vec<EventSummary>),
}

/// The schema of an event: its columns' names and types.
pub open spec fn schema_of(e: Event) -> Seq<(Seq<char>, ColumnType)> {
    e.record.columns@.map_values(|c: Column| (c.name@, c.data_type))
}

/// A summary describes event `i` of the batch.
pub open spec fn describes(s: EventSummary, i: int, e: Event) -> bool {
    &&& s.index == i
    &&& s.rows == e.record.num_rows
    &&& s.fields@.map_values(|f: (String, ColumnType)| (f.0@, f.1)) == schema_of(e)
}

/// One summary per event, in order.
pub open spec fn summarises(v: Seq<EventSummary>, events: Seq<Event>) -> bool {
    &&& v.len() == events.len()
    &&& forall|i: int| 0 <= i < v.len() ==> describes(#[trigger] v[i], i, events[i])
}

/// Prints every batch it receives, for debugging pipelines.
pub struct DebugExporter {
    pub config: Config,
}

/// Factory of debug exporters.
pub struct DebugExporterFactory;

impl DebugExporterFactory {
    pub fn component_type(&self) -> (r: &'static str)
        ensures
            r@ == "debugexporter"@,
    {
        DebugExporter::component_type()
    }
}

fn summary(index: usize, e: &Event) -> (s: EventSummary)
    ensures
        describes(s, index as int, *e),
{
    let cols = &e.record.columns;
    let mut fields: Vec<(String, ColumnType)> = Vec::new();
    let mut i: usize = 0;
    while i < cols.len()
        invariant
            0 <= i <= cols.len(),
            *cols == e.record.columns,
            fields@.map_values(|f: (String, ColumnType)| (f.0@, f.1))
                == cols@.take(i as int).map_values(|c: Column| (c.name@, c.data_type)),
        decreases cols.len() - i,
    {
        let ghost before = fields@;
        fields.push((cols[i].name.clone(), cols[i].data_type));
        assert(fields@.map_values(|f: (String, ColumnType)| (f.0@, f.1))
            =~= before.map_values(|f: (String, ColumnType)| (f.0@, f.1)).push((cols[i as int].name@, cols[i as int].data_type)));
        assert(cols@.take(i + 1).map_values(|c: Column| (c.name@, c.data_type))
            =~= cols@.take(i as int).map_values(|c: Column| (c.name@, c.data_type)).push((cols[i as int].name@, cols[i as int].data_type)));
        assert(fields@.map_values(|f: (String, ColumnType)| (f.0@, f.1))
            =~= cols@.take(i + 1).map_values(|c: Column| (c.name@, c.data_type)));
        i = i + 1;
    }
    assert(cols@.take(cols.len() as int) =~= cols@);
    EventSummary { index, rows: e.record.num_rows, fields }
}

fn summaries(batch: &Batch) -> (v: Vec<EventSummary>)
    ensures
        summarises(v@, batch.events@),
{
    let mut out: Vec<EventSummary> = Vec::new();
    let mut i: usize = 0;
    while i < batch.events.len()
        invariant
            0 <= i <= batch.events.len(),
            out.len() == i,
            forall|j: int| 0 <= j < i ==> describes(#[trigger] out[j], j, batch.events[j]),
        decreases batch.events.len() - i,
    {
        out.push(summary(i, &batch.events[i]));
        i = i + 1;
    }
    out
}

impl DebugExporter {
    pub fn component_type() -> (r: &'static str)
        ensures
            r@ == "debugexporter"@,
    {
        "debugexporter"
    }

    /// What to report of a batch at the configured verbosity.
    pub fn report(&self, batch: &Batch) -> (r: DebugReport)
        requires
            total_rows(batch.events@) <= usize::MAX,
        ensures
            match self.config.verbosity {
                Verbosity::Basic => r == (DebugReport::Basic {
                    events: batch.events.len(),
                    rows: total_rows(batch.events@) as usize,
                }),
                Verbosity::Normal => r matches DebugReport::Normal(v) && summarises(v@, batch.events@),
                Verbosity::Detailed => r matches DebugReport::Detailed(v) && summarises(v@, batch.events@),
            },
    {
        match self.config.verbosity {
            Verbosity::Basic => DebugReport::Basic { events: batch.len(), rows: batch.row_count() },
            Verbosity::Normal => DebugReport::Normal(summaries(batch)),
            Verbosity::Detailed => DebugReport::Detailed(summaries(batch)),
        }
    }
}

} // verus!
