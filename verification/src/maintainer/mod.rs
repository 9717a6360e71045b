//! Table state maintenance: seat views, legal actions, calculators over a view, settlement
//! and the table mirror. No game progression.

pub mod action;
pub mod view;
pub mod tileset;
pub mod player;
pub mod scoring;
pub mod calc;
pub mod legal;
pub mod legal_laws;
pub mod safety_laws;
pub mod offer_laws;
pub mod scoring_laws;
pub mod reaction_laws;
pub mod inventory;
pub mod reconcile;
pub mod reconcile_laws;
pub mod mirror_rules;
pub mod mirror;
pub mod mirror_laws;
pub mod ordinary;
pub mod product;
pub mod product_laws;
pub mod furiten_laws;
pub mod table_laws;
pub mod move_laws;
pub mod call_laws;
pub mod stage_laws;
