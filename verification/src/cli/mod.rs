//! The rules behind the command line: which seats play, how self-play goes on, and what is
//! printed.

pub mod seats;
pub mod seats_laws;
pub mod selfplay;
pub mod selfplay_laws;
pub mod report;
pub mod matchlog;
