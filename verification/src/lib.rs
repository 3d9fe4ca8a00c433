pub mod document;
pub mod environment;
pub mod error;
pub mod handler;
pub mod ident;
pub mod json;
pub mod migration;
pub mod progress;
pub mod records;
pub mod run;
pub mod tables;
pub mod worker;
