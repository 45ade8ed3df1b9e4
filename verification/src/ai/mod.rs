pub mod agent;
pub mod backend;
pub mod blackbird;
pub mod client;
pub mod custom;
pub mod error;
pub mod gateway;
pub mod history;
pub mod ollama;
