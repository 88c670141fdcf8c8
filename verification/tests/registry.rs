use ingestion::config::{Config, ExporterEntry, PipelineConfig};
use ingestion::error::IngestionError;
use ingestion::pipeline::ExporterGroup;
use ingestion::registry::ComponentRegistry;
use ingestion::table::NamedTable;

type Factory = Box<dyn Fn(&serde_yaml::Value) -> Result<u32, anyhow::Error>>;

fn maker(tag: u32) -> Factory {
    Box::new(move |_config: &serde_yaml::Value| Ok(tag))
}

fn failing() -> Factory {
    Box::new(|_config: &serde_yaml::Value| Err(anyhow::Error::msg("boom")))
}

/// A factory that builds the number its configuration holds.
fn from_config() -> Factory {
    Box::new(|config: &serde_yaml::Value| config.as_u64().map(|n| n as u32).ok_or_else(|| anyhow::Error::msg("not a number")))
}

fn registry() -> ComponentRegistry<Factory, Factory, Factory> {
    let mut r = ComponentRegistry::new();
    r.register_receiver("http".to_string(), maker(1));
    r.register_processor("batch".to_string(), maker(2));
    r.register_processor("memory".to_string(), maker(3));
    r.register_exporter("debug".to_string(), maker(4));
    r.register_exporter("s3".to_string(), maker(5));
    r
}

fn config(p: PipelineConfig) -> Config {
    let mut c = Config::new();
    c.receivers.insert("http".to_string(), serde_yaml::Value::Null);
    c.processors.insert("batch".to_string(), serde_yaml::Value::Null);
    c.processors.insert("memory".to_string(), serde_yaml::Value::Null);
    c.exporters.insert("debug".to_string(), serde_yaml::Value::Null);
    c.exporters.insert("s3".to_string(), serde_yaml::Value::Null);
    c.pipelines.insert("main".to_string(), p);
    c
}

fn pcfg(receiver: &str, processors: &[&str], exporters: Vec<ExporterEntry>) -> PipelineConfig {
    PipelineConfig { receiver: receiver.to_string(), processors: processors.iter().map(|s| s.to_string()).collect(), exporters }
}

fn config_error<T>(r: Result<T, IngestionError>) -> String {
    match r {
        Err(IngestionError::Config(m)) => m,
        Err(_) => panic!("expected a configuration error"),
        Ok(_) => panic!("expected an error"),
    }
}

#[test]
fn named_table_reads_back_what_was_written() {
    let mut t: NamedTable<u32> = NamedTable::new();
    assert_eq!(t.insert("a".to_string(), 1), None);
    assert_eq!(t.insert("b".to_string(), 2), None);
    assert_eq!(t.get(&"a".to_string()), Some(&1));
    assert_eq!(t.insert("a".to_string(), 3), Some(1));
    assert_eq!(t.get(&"a".to_string()), Some(&3));
    assert_eq!(t.get(&"c".to_string()), None);
    assert_eq!(t.len(), 2);
    assert_eq!(t.entry(0), (&"a".to_string(), &3));
    assert_eq!(t.entry(1), (&"b".to_string(), &2));
}

#[test]
fn builds_a_pipeline_in_configured_order() {
    let p = pcfg("http", &["memory", "batch"], vec![ExporterEntry::Flat("debug".to_string()), ExporterEntry::OneOf(vec!["s3".to_string(), "debug".to_string()])]);
    let c = config(p);
    let built = registry().build_all(&c).unwrap();
    assert_eq!(built.len(), 1);
    let p = &built[0];
    assert_eq!(p.name, "main");
    assert_eq!(p.receiver, 1);
    assert_eq!(p.processors, vec![3, 2]);
    assert!(matches!(p.exporter_groups[0], ExporterGroup::Flat(4)));
    assert!(matches!(&p.exporter_groups[1], ExporterGroup::OneOf(v) if v == &vec![5, 4]));
    assert_eq!(p.channel_capacity, 1024);
}

#[test]
fn later_registration_replaces_earlier() {
    let mut r = registry();
    r.register_receiver("http".to_string(), maker(9));
    let c = config(pcfg("http", &[], vec![]));
    assert_eq!(r.build_all(&c).unwrap()[0].receiver, 9);
}

#[test]
fn refuses_unregistered_and_unconfigured_names() {
    let r = registry();
    let c = config(pcfg("grpc", &[], vec![]));
    assert_eq!(config_error(r.build_all(&c)), "no receiver registered for 'grpc'");
    let c = config(pcfg("http", &["batch", "dedup"], vec![]));
    assert_eq!(config_error(r.build_all(&c)), "no processor registered for 'dedup'");
    let c = config(pcfg("http", &[], vec![ExporterEntry::OneOf(vec!["s3".to_string(), "kafka".to_string()])]));
    assert_eq!(config_error(r.build_all(&c)), "no exporter registered for 'kafka'");
    let mut r2 = registry();
    r2.register_exporter("kafka".to_string(), maker(6));
    assert_eq!(config_error(r2.build_all(&c)), "exporter 'kafka' missing from config");
    let mut r3 = registry();
    r3.register_receiver("grpc".to_string(), maker(7));
    let c = config(pcfg("grpc", &[], vec![]));
    assert_eq!(config_error(r3.build_all(&c)), "receiver 'grpc' missing from config");
    let mut r4 = registry();
    r4.register_processor("dedup".to_string(), maker(8));
    let c = config(pcfg("http", &["dedup"], vec![]));
    assert_eq!(config_error(r4.build_all(&c)), "processor 'dedup' missing from config");
}

#[test]
fn receiver_error_comes_before_processor_error() {
    let r = registry();
    let c = config(pcfg("nope", &["alsonope"], vec![]));
    assert_eq!(config_error(r.build_all(&c)), "no receiver registered for 'nope'");
}

#[test]
fn factory_failure_is_passed_on() {
    let mut r = registry();
    r.register_processor("batch".to_string(), failing());
    let c = config(pcfg("http", &["batch"], vec![]));
    match r.build_all(&c) {
        Err(IngestionError::Component(e)) => assert_eq!(e.to_string(), "boom"),
        _ => panic!("expected the factory's error"),
    }
}

#[test]
fn empty_config_builds_nothing() {
    let r = registry();
    assert!(r.build_all(&Config::new()).unwrap().is_empty());
    let d: ComponentRegistry<Factory, Factory, Factory> = ComponentRegistry::default();
    assert_eq!(d.receivers.len(), 0);
}

#[test]
fn each_component_is_built_from_its_own_configuration_entry() {
    let mut r: ComponentRegistry<Factory, Factory, Factory> = ComponentRegistry::new();
    r.register_receiver("http".to_string(), from_config());
    r.register_processor("a".to_string(), from_config());
    r.register_processor("b".to_string(), from_config());
    r.register_exporter("x".to_string(), from_config());
    r.register_exporter("y".to_string(), from_config());
    let mut c = Config::new();
    c.receivers.insert("http".to_string(), serde_yaml::Value::from(10u64));
    c.processors.insert("a".to_string(), serde_yaml::Value::from(20u64));
    c.processors.insert("b".to_string(), serde_yaml::Value::from(21u64));
    c.exporters.insert("x".to_string(), serde_yaml::Value::from(30u64));
    c.exporters.insert("y".to_string(), serde_yaml::Value::from(31u64));
    c.pipelines.insert(
        "main".to_string(),
        pcfg("http", &["b", "a"], vec![ExporterEntry::OneOf(vec!["y".to_string(), "x".to_string()]), ExporterEntry::Flat("x".to_string())]),
    );
    let built = r.build_all(&c).unwrap();
    let p = &built[0];
    assert_eq!(p.receiver, 10);
    assert_eq!(p.processors, vec![21, 20]);
    assert!(matches!(&p.exporter_groups[0], ExporterGroup::OneOf(v) if v == &vec![31, 30]));
    assert!(matches!(p.exporter_groups[1], ExporterGroup::Flat(30)));
}

#[test]
fn empty_one_of_entry_builds_an_empty_group() {
    let c = config(pcfg("http", &[], vec![ExporterEntry::OneOf(vec![])]));
    let built = registry().build_all(&c).unwrap();
    assert!(matches!(&built[0].exporter_groups[0], ExporterGroup::OneOf(v) if v.is_empty()));
}

#[test]
fn first_failure_in_build_order_wins() {
    // a failing processor comes before an unregistered exporter
    let mut r = registry();
    r.register_processor("batch".to_string(), failing());
    let c = config(pcfg("http", &["batch"], vec![ExporterEntry::Flat("kafka".to_string())]));
    assert!(matches!(r.build_all(&c), Err(IngestionError::Component(_))));
    // an unregistered processor comes before a failing exporter
    let mut r = registry();
    r.register_exporter("s3".to_string(), failing());
    let c = config(pcfg("http", &["dedup"], vec![ExporterEntry::Flat("s3".to_string())]));
    assert_eq!(config_error(r.build_all(&c)), "no processor registered for 'dedup'");
    // within a one-of entry, members are built left to right
    let c = config(pcfg("http", &[], vec![ExporterEntry::OneOf(vec!["s3".to_string(), "kafka".to_string()])]));
    assert!(matches!(r.build_all(&c), Err(IngestionError::Component(_))));
}
