pub mod text;
pub mod models;
pub mod storage;
pub mod compare;
pub mod time;
pub mod md;
pub mod dashboard;
pub mod runpage;
pub mod auto;
pub mod cli;
pub mod show;
pub mod store;
pub mod web;
