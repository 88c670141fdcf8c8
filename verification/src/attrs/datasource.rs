use vstd::prelude::*;

verus! {

/// Unique identifier of the datasource an event came from.
pub const ID: &'static str = "datasource.id";

/// Human-readable name of the datasource, where a receiver knows one.
pub const NAME: &'static str = "datasource.name";

/// Transport or protocol of the receiver that produced the event.
pub const KIND: &'static str = "datasource.kind";

} // verus!
