//! The description of the data of a project.

pub mod common;
pub mod data;
