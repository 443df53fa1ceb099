//! Verified core of a scraper that collects LCSC / JLCPCB part information
//! into a local SQLite database.

pub mod fetch;
pub mod jlc;
pub mod lcsc;
pub mod page;
pub mod parts;
pub mod pattern;
pub mod postprocess;
pub mod query;
pub mod scrape;
pub mod sql;
pub mod text;
