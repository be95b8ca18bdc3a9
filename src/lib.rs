//! Value interning: one canonical, process-lifetime instance per distinct
//! value, so that equal values can be compared by identity.
//!
//! - `store`: the single-threaded deduplicating sequence and its laws;
//! - `arena`: the thread-safe arena built on it;
//! - `interned`: handles to canonical instances and the `Intern` capability;
//! - `composite`: the canonical form of record types;
//! - `content`, `promote`: content comparison and promotion to process lifetime.

pub mod arena;
pub mod composite;
pub mod content;
pub mod interned;
pub mod promote;
pub mod store;

pub use content::Content;
pub use interned::{Intern, Interned};
