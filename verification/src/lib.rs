//! A fixed-capacity metrics core: claim-once slot stores, keyed registries
//! with insert-if-absent lookup, and gauge/counter state machines with
//! monotonic timestamps, exported in the OpenMetrics text format.

pub mod metric;
pub mod registry;
pub mod text;
pub mod timestamp;

pub use metric::Counter;
pub use metric::CounterFamily;
pub use metric::FmtLabels;
pub use metric::Gauge;
pub use metric::GaugeFamily;
pub use metric::IntGauge;
pub use metric::LabelSet;
pub use metric::Metric;
pub use metric::MetricBuilder;
pub use metric::MetricFamily;
pub use registry::Registry;
pub use registry::RegistryMap;
pub use timestamp::UnixTimestamp;
