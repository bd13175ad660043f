//! Wealth tracking for Path of Exile stash tabs: the data model, the price and
//! icon tables, the request building and the state machine of the tracker.
pub mod text;
pub mod names;
pub mod models;
pub mod api;
pub mod stash;
pub mod interval;
pub mod chart;
pub mod snapshot;
pub mod state;
