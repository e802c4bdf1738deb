//! Verified control logic for driving a browser session that locates,
//! paginates through, and extracts parcel records from a web application's
//! results table, cross-referencing them against a receiver-keyed dataset.
//!
//! The library holds the decisions: the authentication check and login plan
//! (`auth`), the view switch and exact-text identifier search (`nav`), the
//! pagination-and-extraction loop (`engine`), the receiver-keyed Dataset
//! Index (`index`), and the ordered pre-extraction pipeline (`pipeline`).
//! Every function works on plain observed values — location strings, element
//! presence, cell texts — and returns either a plan of interactions or the
//! fail-fast element-not-found error. The caller owns the live session: it
//! observes, hands the observations in, and performs the planned actions.
//! The extracted record stream and the Dataset Index are both exposed; any
//! join between them is left to the caller.

pub mod auth;
pub mod config;
pub mod engine;
pub mod index;
pub mod nav;
pub mod pipeline;
pub mod record;
pub mod text;
pub mod ui;
