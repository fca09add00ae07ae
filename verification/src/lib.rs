//! Compaction planning for one partition of a time-series store.
//!
//! Given the sizes and time ranges of the data files of a partition, the
//! planner decides whether the files are merged into a single output file or
//! merged and split at a list of time boundaries.
//!
//! * [`time_range`]: inclusive time ranges and the presence test on them.
//! * [`thresholds`]: the two byte cutoffs derived from the target file size.
//! * [`split`]: the search for split boundaries over a time range.
//! * [`strategy`]: the choice between the compaction tiers.
//! * [`builder`]: the plan builder that feeds file metadata into the above.
//! * [`plugins`]: the descriptions of processing-engine plugins.

pub mod time_range;
pub mod thresholds;
pub mod split;
pub mod strategy;
pub mod builder;
pub mod plugins;

pub use builder::{CompactPlanBuilder, CompactionLevel, Config, DataFile};
pub use strategy::SplitPlanView;
pub use plugins::{
    PluginType, ProcessingEnginePlugin, ProcessingEngineTrigger, TriggerSpecification, TriggerType,
};
pub use strategy::SplitPlan;
pub use time_range::TimestampMinMax;
