//! Declarative network-traffic policy and its compilation into the filter
//! descriptors of a kernel-level packet-filtering engine.
//!
//! A [`FilterRule`] says what traffic is meant and what is done with it.
//! The library validates a rule, selects the engine's layers at which it
//! takes effect, compiles the conditions of its filter at each layer and
//! gives every filter a weight. The [`WfpController`] plans a batch of
//! rules and keeps the books on what the engine installed; the calls to
//! the engine itself are made by the program around the library.

pub mod address;
pub mod block;
pub mod cache;
pub mod condition;
pub mod config;
pub mod controller;
pub mod descriptor;
pub mod engine;
pub mod layer;
pub mod network;
pub mod plan;
pub mod rule;
pub mod selector;
pub mod signature;
pub mod stats;
pub mod text;
pub mod weight;
pub mod wide;

pub use address::IpAddress;
pub use cache::FilterCache;
pub use condition::{compile_conditions, CompileWarning, CompiledConditions, Condition, Side};
pub use config::{FilterRuleConfig, GroupConfig, MetadataConfig, RuleConfig};
pub use controller::{InstallReport, PointRejection, SessionState, WfpController, WfpError};
pub use descriptor::{compile_filter, CompiledFilter, FilterDescriptor};
pub use engine::EngineError;
pub use layer::{IdentitySupport, InspectionPoint, IpFamily, Layer};
pub use network::{AddressSpec, CidrError, IpNetwork};
pub use plan::{InstallPlan, PlannedFilter, SkipReason, SkippedFilter};
pub use rule::{Direction, FilterAction, FilterRule, Protocol, TimeControl, ValidationError};
pub use selector::select_layers;
pub use stats::TrafficStats;
pub use weight::WeightCounter;
pub use wide::to_wide_string;
