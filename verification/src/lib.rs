//! Core logic of a terminal dashboard for local project directories:
//! name normalization and fuzzy document matching, relative-time labels,
//! project records with their scan-time metadata, and the selection /
//! filter state machine that drives the list view.

pub mod actions;
pub mod digits;
pub mod linker;
pub mod project;
pub mod scan;
pub mod selection;
pub mod text;
pub mod timefmt;
