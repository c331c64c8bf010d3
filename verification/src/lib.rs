//! Imports a real-estate listing page into a Nextcloud folder.
use vstd::prelude::*;

pub mod conduct;
pub mod config;
pub mod decimal;
pub mod error;
pub mod form;
pub mod guarantees;
pub mod job;
pub mod nextcloud;
pub mod page;
pub mod paths;
pub mod steps;
pub mod template;
pub mod text;

verus! {

} // verus!
