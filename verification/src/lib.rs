//! A static site generator's build pipeline: content documents are normalized,
//! indexed by tag and year, paged, projected into template variables and planned
//! into output files.

pub mod cmd;
pub mod models;
pub mod utils;
