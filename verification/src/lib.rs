//! Verified core of the Finanalize report backend.

pub mod api;
pub mod auth;
pub mod credit;
pub mod credits;
pub mod error;
pub mod text;
pub mod latex;
pub mod extractors;
pub mod graphing;
pub mod jwt;
pub mod llm;
pub mod models;
pub mod report;
pub mod search;
pub mod sec;
pub mod tasks;
pub mod prompting;
