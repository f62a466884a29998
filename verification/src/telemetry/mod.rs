//! Events, metrics and who is told of them.
pub mod context;
pub mod event;
pub mod laws;
pub mod metric;
pub mod recorder;
pub mod tcp;

pub use self::context::NacelleMetricsContext;
pub use self::event::{
    CompositeObserver, NacelleInMemoryObserver, NacelleInMemoryTelemetrySink, NacelleTelemetryEvent,
    NacelleTelemetryEventKind, NacelleTelemetryObserver, NacelleTelemetrySink, NoopObserver,
};
pub use self::metric::{Label, MetricUpdate};
pub use self::recorder::{NacelleRequestMetricsConfig, NacelleTelemetry, NacelleTelemetryConfig};
