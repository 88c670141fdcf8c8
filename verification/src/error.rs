use vstd::prelude::*;

verus! {

/// The opaque error type produced by component factories.
#[verifier::external_type_specification]
#[verifier::external_body]
pub struct ExAnyhowError(anyhow::Error);

/// Opaque operating-system I/O error.
#[verifier::external_type_specification]
#[verifier::external_body]
pub struct ExIoError(std::io::Error);

/// Opaque error of the columnar-record crate.
#[verifier::external_type_specification]
#[verifier::external_body]
pub struct ExArrowError(arrow::error::ArrowError);

/// Every failure the pipeline reports.
#[derive(Debug)]
pub enum IngestionError {
    ChannelSend(String),
    ExportFailed(String),
    MaxRetriesExhausted { attempts: usize },
    Arrow(arrow::error::ArrowError),
    Io(std::io::Error),
    Config(String),
    Component(anyhow::Error),
}


/// `r` is a configuration error with this text.
pub open spec fn is_config_error<T>(r: Result<T, IngestionError>, msg: Seq<char>) -> bool {
    r matches Err(IngestionError::Config(m)) && m@ == msg
}

} // verus!
