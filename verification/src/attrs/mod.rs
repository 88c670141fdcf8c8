//! Reserved keys of an event's source attributes. Receivers set them when
//! they build an event; processors and exporters read them to route or
//! partition by source. Keys follow the `<namespace>.<attribute>` style.

pub mod datasource;
