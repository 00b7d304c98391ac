//! Observatory watches the services that EPC runs: it checks their ports and
//! health endpoints, keeps a history of the checks, sends a text message when
//! a service changes status, and serves a dashboard of status cards.
//!
//! This crate holds the decisions and the rendering, each with its contract:
//! `poller` decides what a check found and what a poll writes and alerts,
//! `clock` stamps checks with the time, `alert` words the alerts, `dashboard` renders the pages, `db` holds the
//! rows of the store, `page` the fixed text of the pages and `text` the
//! character-level helpers. Reading files, running commands, HTTP and SQLite
//! stay in the program around it.

pub mod alert;
pub mod clock;
pub mod dashboard;
pub mod db;
pub mod page;
pub mod poller;
pub mod text;
