//! State engine for an interactive browser of Azure DevOps variable groups.
//!
//! The library owns the authoritative application state: the fetched groups
//! and their entries, the two-level view (group list or one group's entries),
//! the search state with one query per level, a memoizing fuzzy-filter cache,
//! theme and status message. All mutation goes through [`store::Reducer`],
//! which applies exactly one transition per [`action::Action`] and reports
//! the side effect, if any, that the caller must perform.

pub mod action;
pub mod matcher;
pub mod ranking;
pub mod state;
pub mod store;
pub mod text;
pub mod widgets;
