//! Verified core of the FloatCTF platform: the decisions and computations
//! behind its HTTP handlers, stated over plain values.

pub mod text;
pub mod filter;
pub mod error;
pub mod response;
pub mod scoreboard;
pub mod trend;
pub mod order;
pub mod ranking;
pub mod membership;
pub mod standing;
pub mod rss;
pub mod calendar;
pub mod pagination;
pub mod scheduler;
pub mod accounts;
pub mod settings;
pub mod content;
pub mod ops;
pub mod roster;
pub mod monitor;
pub mod admin;
pub mod views;
pub mod kv;
