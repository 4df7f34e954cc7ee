//! Routing core of a key-search tool for a partitioned log cluster:
//! key-to-partition hashing, topic resolution with typo-tolerant errors,
//! assignment planning and the token request cycle.

pub mod config;
pub mod error;
pub mod matcher;
pub mod partition;
pub mod planner;
pub mod resolver;
pub mod servers;
pub mod style;
pub mod text;
pub mod timestamp;
pub mod token;
pub mod topology;
