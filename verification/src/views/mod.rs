pub mod content;
pub mod shared;
pub mod tags;
