//! Live-preview coordination for an editor integration: a source cache with
//! dependency tracking, a reload state machine that coalesces recompile
//! requests, a hit-testing engine over compiled scenes, and a bridge that
//! turns selections into editor navigation requests.

pub mod bridge;
pub mod diagnostics;
pub mod driver;
pub mod geometry;
pub mod reload;
pub mod scene;
pub mod select;
pub mod source_cache;

pub use geometry::LogicalPoint;
pub use geometry::LogicalRect;
pub use reload::Coordinator;
pub use reload::PreviewComponent;
pub use reload::PreviewConfig;
pub use reload::ReloadState;
pub use scene::Scene;
pub use source_cache::SourceCache;
