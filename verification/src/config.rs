use vstd::prelude::*;
use crate::table::NamedTable;

verus! {

/// A component's raw YAML configuration, handed to its factory unread.
#[verifier::external_type_specification]
#[verifier::external_body]
pub struct ExYamlValue(serde_yaml::Value);

/// Top-level pipeline configuration. Component configurations are kept raw:
/// each component's factory reads its own.
pub struct Config {
    pub receivers: NamedTable<serde_yaml::Value>,
    pub processors: NamedTable<serde_yaml::Value>,
    pub exporters: NamedTable<serde_yaml::Value>,
    pub pipelines: NamedTable<PipelineConfig>,
}

/// Declarative pipeline definition: one receiver, an ordered processor
/// chain, and an ordered list of exporter entries.
pub struct PipelineConfig {
    /// Name of a receiver in the top-level `receivers` table.
    pub receiver: String,
    /// Names of processors in the top-level `processors` table, in order.
    pub processors: Vec<String>,
    /// Exporter entries, in order.
    pub exporters: Vec<ExporterEntry>,
}

/// A pipeline's exporter entry: a single name (flat, mandatory) or a list
/// of names (one-of: tried left to right, first success wins).
pub enum ExporterEntry {
    Flat(String),
    OneOf(Vec<String>),
}

impl Config {
    /// A configuration with no components and no pipelines.
    pub fn new() -> (r: Config)
        ensures
            r.receivers@.is_empty(),
            r.processors@.is_empty(),
            r.exporters@.is_empty(),
            r.pipelines@.is_empty(),
    {
        Config {
            receivers: NamedTable::new(),
            processors: NamedTable::new(),
            exporters: NamedTable::new(),
            pipelines: NamedTable::new(),
        }
    }
}

} // verus!
