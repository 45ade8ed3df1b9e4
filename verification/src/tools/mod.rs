pub mod apps;
pub mod calculator;
pub mod docs;
pub mod errors;
pub mod settings;
