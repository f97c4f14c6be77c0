pub mod calendar;
pub mod callbacks;
pub mod commands;
pub mod db;
pub mod formatting;
pub mod parser;
pub mod schedule_repo;
pub mod structures;
pub mod tasks;
pub mod text;
