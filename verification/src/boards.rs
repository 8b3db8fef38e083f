//! The boards of a chassis, as far as their behaviour is decided here.

pub mod ai201;
pub mod dio405;
