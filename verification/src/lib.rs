//! Monitors a shop's catalog for changes between scrape cycles.
//!
//! The library is the pure core of the monitor: the catalog item model,
//! the per-item differ, the catalog reconciler, and the renderers that
//! turn an ordered list of change reports into notification payloads.
//! Fetching the page, persisting snapshots and delivering notifications
//! are I/O concerns of the surrounding application.

pub mod diff;
pub mod items;
pub mod reconcile;
pub mod render;
pub mod strutil;
pub mod workflow;

pub use diff::diff_items;
pub use items::ItemModel;
pub use items::ShopItem;
pub use items::ShopItems;
pub use reconcile::diff_old_new_items;
pub use render::BlockModel;
pub use render::SlackBlock;
pub use render::format_deleted_item;
pub use render::format_item_diff;
pub use render::format_new_item;
pub use render::get_plain_body;
pub use render::get_slack_body;
pub use workflow::CycleOutcome;
pub use workflow::evaluate_cycle;
