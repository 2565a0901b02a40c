//! Nutrition totals, shopping-list consolidation and weekly planning for a
//! recipe collection, over plain in-memory records.
pub mod authorization;
pub mod bring;
pub mod decimal;
pub mod nutrition;
pub mod orientation;
pub mod shopping;
pub mod units;
pub mod weekplan;
