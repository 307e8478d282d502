//! Decision logic of a meal-plan assistant: which days are open for
//! selection, what is asked of the recommendation oracle, and which
//! adjustments and menu changes follow from the user's choices.

pub mod ai;
pub mod api;
pub mod date;
pub mod diets;
pub mod history;
pub mod menu;
pub mod preferences;
pub mod stats;
pub mod text;
pub mod workflow;
