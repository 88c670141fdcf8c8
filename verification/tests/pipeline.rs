use ingestion::engine::{close_plan, CloseStep, Engine, StartStep};
use ingestion::executor::GroupShape;
use ingestion::executor::RetryConfig;
use ingestion::pipeline::{chain_next, chain_start, ChainStep, ExporterGroup, Pipeline, ProcessOutcome, DEFAULT_CHANNEL_CAPACITY};

#[test]
fn chain_flushes_when_every_processor_passes() {
    assert_eq!(chain_start(0), ChainStep::Flush);
    assert_eq!(chain_start(2), ChainStep::Process(0));
    assert_eq!(chain_next(2, 0, ProcessOutcome::Passed), ChainStep::Process(1));
    assert_eq!(chain_next(2, 1, ProcessOutcome::Passed), ChainStep::Flush);
}

#[test]
fn chain_drops_on_failure_and_holds_on_empty() {
    assert_eq!(chain_next(3, 0, ProcessOutcome::Failed), ChainStep::Drop);
    assert_eq!(chain_next(3, 1, ProcessOutcome::Empty), ChainStep::Hold);
    assert_eq!(chain_next(1, 0, ProcessOutcome::Empty), ChainStep::Hold);
}

fn pipeline(groups: Vec<ExporterGroup<u8>>, processors: Vec<u8>) -> Pipeline<u8, u8, u8> {
    Pipeline { name: "p".to_string(), receiver: 0, processors, exporter_groups: groups, channel_capacity: DEFAULT_CHANNEL_CAPACITY }
}

#[test]
fn start_order_is_exporters_processors_receiver() {
    let e = Engine::new(vec![
        pipeline(vec![ExporterGroup::Flat(1), ExporterGroup::OneOf(vec![2, 3])], vec![4]),
        pipeline(vec![], vec![]),
    ]);
    assert_eq!(e.retry.max_attempts, 3);
    let plan = e.start_plan();
    assert_eq!(
        plan,
        vec![
            StartStep::StartExporter { pipeline: 0, group: 0, member: 0 },
            StartStep::StartExporter { pipeline: 0, group: 1, member: 0 },
            StartStep::StartExporter { pipeline: 0, group: 1, member: 1 },
            StartStep::StartProcessor { pipeline: 0, index: 0 },
            StartStep::Launch { pipeline: 0 },
            StartStep::StartReceiver { pipeline: 0 },
            StartStep::Launch { pipeline: 1 },
            StartStep::StartReceiver { pipeline: 1 },
        ]
    );
}

#[test]
fn engine_takes_a_retry_config() {
    let e: Engine<u8, u8, u8> = Engine::new(vec![]).with_retry(RetryConfig { max_attempts: 7, initial_backoff_ms: 1, max_backoff_ms: 2 });
    assert_eq!(e.retry.max_attempts, 7);
    assert!(e.start_plan().is_empty());
    assert_eq!(DEFAULT_CHANNEL_CAPACITY, 1024);
}

#[test]
fn close_plan_drains_then_stops_processors_then_exporters() {
    let plan = close_plan(2, &vec![GroupShape::OneOf(2), GroupShape::Flat]);
    assert_eq!(
        plan,
        vec![
            CloseStep::Drain { index: 0 },
            CloseStep::Drain { index: 1 },
            CloseStep::StopProcessor { index: 0 },
            CloseStep::StopProcessor { index: 1 },
            CloseStep::StopExporter { group: 0, member: 0 },
            CloseStep::StopExporter { group: 0, member: 1 },
            CloseStep::StopExporter { group: 1, member: 0 },
        ]
    );
    assert!(close_plan(0, &vec![]).is_empty());
}
