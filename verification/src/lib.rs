//! Things 3 command-line companion: the logic behind reading the Things
//! database into rows, rendering them, and building Things URLs.

pub mod text;
pub mod dates;
pub mod json;
pub mod write;
pub mod model;
pub mod output;
pub mod error;
pub mod queries;
pub mod cli;
pub mod db;
