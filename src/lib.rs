//! Benchmark engine for compiled token-contract modules: a module check, an
//! emulated metered host, a scenario runner, an invocation recorder and a
//! report builder.

pub mod benchmark;
pub mod host;
pub mod loader;
pub mod metrics;
pub mod ops;
pub mod report;
pub mod runner;

pub use loader::{check_module, exports, first_existing, LoadError};
pub use ops::{OpKind, Step};
pub use host::{HostContext, InvocationError, Outcome, DEFAULT_CEILING};
pub use metrics::{Clock, InvocationRecord, MetricsCollector};
pub use runner::{run, BenchmarkError, ReplaySandbox, Sandbox};
pub use report::{summarize, summarize_kind, OpSummary, Report};
pub use benchmark::{run_token_benchmark, token_scenario, BenchmarkFailure, BenchmarkRun};
