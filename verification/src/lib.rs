//! Fetching a numbered run of cartoons: what to fetch, where to keep it,
//! and which items are already there.

pub mod batch;
pub mod date;
pub mod db;
pub mod extender;
pub mod fetcher;
pub mod par_db;
pub mod scheduler;
pub mod store;
