//! A content-addressed document registry: callers submit a content hash with
//! metadata, the registry durably records the first submission for each hash
//! with its registration timestamp, rejects duplicates, and maintains a
//! running count of successful registrations.

pub mod records;
pub mod storage;
pub mod registry;
pub mod properties;
