//! League bot logic: Sleeper data model, report formatting, chat and trade
//! decisions, all with verified contracts.
pub mod text;
pub mod sleeper;
pub mod lineup;
pub mod order;
pub mod state;
pub mod chat;
pub mod news;
pub mod trade_analyzer;
pub mod json;
pub mod graphql;
pub mod tools;
pub mod schema;
pub mod search;
pub mod history;
pub mod agent;
pub mod llm;
pub mod config;
pub mod laws;
