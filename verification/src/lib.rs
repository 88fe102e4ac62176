pub mod agent;
pub mod catalog;
pub mod channel;
pub mod dispatch;
pub mod extension;
pub mod ids;
pub mod json;
pub mod laws;
pub mod lists;
pub mod message;
pub mod monitor;
pub mod permission;
pub mod prompts;
pub mod recipe;
pub mod reply;
pub mod response;
pub mod setup;
pub mod stream;
pub mod tool;
pub mod turn;
