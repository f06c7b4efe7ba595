//! What the persistence layer reads and decides, apart from the database itself: the values rows are
//! read into, and the rules that guard the writes.

pub mod auth;
pub mod segments;
pub mod sessions;

pub use segments::{merge_ranges, SegmentStorageStats};
pub use auth::{Credentials, SessionRecord, TotpRecord};
pub use sessions::SessionSummary;
