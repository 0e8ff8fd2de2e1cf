//! Semantic front-end pieces of a hardware-description-language compiler:
//! an assignment-position tracker with a legality checker for assignment
//! targets, and the project metadata model with its validity check.

pub mod position;
pub mod symbol;
pub mod check_assignment;
pub mod traversal;
pub mod metadata;
pub mod cmd_metadata;
