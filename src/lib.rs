//! Tab bookkeeping for a desktop browser shell: a registry of tabs, the
//! render surface that belongs to each, the active tab, and the decisions
//! behind the create / close / navigate / back / forward commands.
pub mod state;
pub mod tab;
