//! `flytable-matchlog-v1`, the archival match log: facts, rulings, settlement and decision
//! windows of complete games.

pub mod event;
pub mod types;
pub mod window;
pub mod validate;
pub mod validate_laws;
pub mod yaku_id;
