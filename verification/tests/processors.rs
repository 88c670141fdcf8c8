use ingestion::table::NamedTable;
use std::sync::Arc;
use std::time::SystemTime;

use ingestion::exporter::debug::{Config as DebugConfig, DebugExporter, DebugExporterFactory, DebugReport, Verbosity};
use ingestion::processor::batch::{BatchingProcessor, Config as BatchConfig};
use ingestion::processor::memory::{mib_of, default_check_interval_ms, Config as MemoryConfig, MemoryGate, MemoryProcessor};
use ingestion::record::{Cell, Column, ColumnType, Record};
use ingestion::types::{Batch, Event};

fn event(rows: usize) -> Event {
    let col = Column { name: "x".to_string(), data_type: ColumnType::Int64, cells: (0..rows).map(|_| Cell::Scalar(None)).collect() };
    Event { source: NamedTable::new(), record: Arc::new(Record { columns: vec![col], num_rows: rows }), received_at: SystemTime::now() }
}

fn batch(rows: &[usize]) -> Batch {
    let mut b = Batch::new();
    for r in rows {
        b.push(event(*r));
    }
    b
}

const MS: u64 = 1_000_000;

#[test]
fn batch_counts_events_and_rows() {
    let b = batch(&[2, 3, 0]);
    assert_eq!(b.len(), 3);
    assert!(!b.is_empty());
    assert_eq!(b.row_count(), 5);
    assert!(Batch::default().is_empty());
    assert_eq!(Batch::new().row_count(), 0);
}

#[test]
fn default_batch_config() {
    let c = BatchConfig::default();
    assert_eq!(c.batch_size, 1000);
    assert_eq!(c.flush_interval_ms, 5000);
}

#[test]
fn batching_holds_until_row_threshold() {
    let mut p = BatchingProcessor::new(BatchConfig { batch_size: 5, flush_interval_ms: 1000 }, 0);
    let out = p.process(batch(&[2]), 1 * MS);
    assert!(out.is_empty());
    let out = p.process(batch(&[2]), 2 * MS);
    assert!(out.is_empty());
    let out = p.process(batch(&[1, 4]), 3 * MS);
    assert_eq!(out.len(), 4);
    assert_eq!(out.row_count(), 9);
    let out = p.process(batch(&[1]), 4 * MS);
    assert!(out.is_empty());
}

#[test]
fn batching_flushes_after_interval_and_restarts_timer() {
    let mut p = BatchingProcessor::new(BatchConfig { batch_size: 100, flush_interval_ms: 10 }, 0);
    assert!(p.process(batch(&[1]), 9 * MS).is_empty());
    let out = p.process(batch(&[1]), 10 * MS);
    assert_eq!(out.len(), 2);
    assert!(p.process(batch(&[1]), 19 * MS).is_empty());
    assert_eq!(p.process(batch(&[1]), 20 * MS).len(), 2);
    // a clock that goes back counts as no time elapsed
    assert!(p.process(batch(&[1]), 5 * MS).is_empty());
}

#[test]
fn batching_drain_hands_everything_on() {
    let mut p = BatchingProcessor::new(BatchConfig { batch_size: 100, flush_interval_ms: 1000 }, 0);
    assert!(p.process(batch(&[1, 2]), MS).is_empty());
    let out = p.drain(2 * MS);
    assert_eq!(out.row_count(), 3);
    assert!(p.drain(3 * MS).is_empty());
}

#[test]
fn batching_keeps_event_order() {
    let mut p = BatchingProcessor::new(BatchConfig { batch_size: 6, flush_interval_ms: 1000 }, 0);
    p.process(batch(&[1, 2]), 0);
    let out = p.process(batch(&[3]), 0);
    let rows: Vec<usize> = out.events.iter().map(|e| e.record.num_rows).collect();
    assert_eq!(rows, vec![1, 2, 3]);
}

#[test]
fn memory_gate_passes_below_limit_only() {
    assert_eq!(default_check_interval_ms(), 500);
    let c = MemoryConfig::default();
    assert_eq!(c.limit_mib, 512);
    assert_eq!(c.check_interval_ms, 500);
    if let Ok(p) = MemoryProcessor::new(MemoryConfig { limit_mib: 100, check_interval_ms: 25 }) {
        assert_eq!(p.decide(99), MemoryGate::Pass);
        assert_eq!(p.decide(100), MemoryGate::Wait { ms: 25 });
        assert_eq!(p.decide(u64::MAX), MemoryGate::Wait { ms: 25 });
    }
}

#[test]
fn memory_check_reads_the_host() {
    if let Ok(mut p) = MemoryProcessor::new(MemoryConfig { limit_mib: u64::MAX, check_interval_ms: 1 }) {
        let (used, gate) = p.check();
        assert!(used < u64::MAX);
        assert_eq!(gate, MemoryGate::Pass);
    }
    if let Ok(mut p) = MemoryProcessor::new(MemoryConfig { limit_mib: 0, check_interval_ms: 7 }) {
        let (_, gate) = p.check();
        assert_eq!(gate, MemoryGate::Wait { ms: 7 });
    }
}

#[test]
fn debug_exporter_reports_by_verbosity() {
    assert_eq!(DebugExporter::component_type(), "debugexporter");
    assert_eq!(DebugExporterFactory.component_type(), "debugexporter");
    assert_eq!(DebugConfig::default().verbosity, Verbosity::Basic);
    let b = batch(&[2, 3]);
    match (DebugExporter { config: DebugConfig { verbosity: Verbosity::Basic } }).report(&b) {
        DebugReport::Basic { events, rows } => {
            assert_eq!(events, 2);
            assert_eq!(rows, 5);
        }
        _ => panic!("expected a basic report"),
    }
    match (DebugExporter { config: DebugConfig { verbosity: Verbosity::Normal } }).report(&b) {
        DebugReport::Normal(v) => {
            assert_eq!(v.len(), 2);
            assert_eq!(v[1].index, 1);
            assert_eq!(v[1].rows, 3);
            assert_eq!(v[1].fields, vec![("x".to_string(), ColumnType::Int64)]);
        }
        _ => panic!("expected a normal report"),
    }
    assert!(matches!((DebugExporter { config: DebugConfig { verbosity: Verbosity::Detailed } }).report(&b), DebugReport::Detailed(v) if v.len() == 2));
}

fn bare(rows: &[usize]) -> Batch {
    let mut b = Batch::new();
    for r in rows {
        b.push(Event { source: NamedTable::new(), record: Arc::new(Record { columns: vec![], num_rows: *r }), received_at: SystemTime::now() });
    }
    b
}

#[test]
fn row_counts_that_do_not_fit_are_detected() {
    let b = bare(&[usize::MAX, 1]);
    assert_eq!(b.checked_row_count(), None);
    assert_eq!(bare(&[usize::MAX]).checked_row_count(), Some(usize::MAX));
    let p = BatchingProcessor::new(BatchConfig { batch_size: 10, flush_interval_ms: 10 }, 0);
    assert!(p.can_take(&batch(&[3])));
    assert!(!p.can_take(&b));
}

#[test]
fn bytes_round_down_to_whole_mebibytes() {
    assert_eq!(mib_of(0), 0);
    assert_eq!(mib_of(1048575), 0);
    assert_eq!(mib_of(1048576), 1);
    assert_eq!(mib_of(5 * 1048576 + 7), 5);
    assert_eq!(mib_of(u64::MAX), u64::MAX / 1048576);
}

#[test]
fn push_adds_the_event_rows() {
    let mut b = batch(&[2, 3]);
    assert_eq!(b.row_count(), 5);
    b.push(event(4));
    assert_eq!(b.row_count(), 9);
    assert_eq!(b.len(), 3);
    assert_eq!(Batch::new().row_count(), 0);
}

#[test]
fn batching_conserves_events_over_many_calls() {
    let mut p = BatchingProcessor::new(BatchConfig { batch_size: 5, flush_interval_ms: 1_000_000 }, 0);
    let inputs: Vec<Vec<usize>> = vec![vec![1, 2], vec![1], vec![3, 1], vec![2], vec![]];
    let mut given = Vec::new();
    let mut handed_on = Vec::new();
    for (k, rows) in inputs.iter().enumerate() {
        let b = batch(rows);
        given.extend(b.events.iter().map(|e| e.record.num_rows));
        let out = p.process(b, k as u64 * MS);
        handed_on.extend(out.events.iter().map(|e| e.record.num_rows));
    }
    let rest = p.drain(10 * MS);
    handed_on.extend(rest.events.iter().map(|e| e.record.num_rows));
    assert_eq!(handed_on, given);
}
