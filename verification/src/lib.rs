pub mod compare;
pub mod deep;
pub mod config;
pub mod db;
pub mod listing;
pub mod order;
pub mod paths;
pub mod records;
pub mod run;
pub mod settings;
pub mod sql;
pub mod tags;
pub mod text;
