//! Build tracking and package discovery for a package repository service.
//!
//! The crate keeps a catalogue of packages and a ledger of build attempts,
//! applies build reports to them, and joins the catalogue with the package
//! index published by the repository host.
pub mod api;
pub mod catalog;
pub mod clock;
pub mod db;
pub mod discovery;
pub mod error;
pub mod integrity;
pub mod laws;
pub mod ledger;
pub mod order;
pub mod registry;
pub mod text;
