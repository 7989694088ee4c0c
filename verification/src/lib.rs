pub mod aws;
pub mod error;
pub mod input;
pub mod keys;
pub mod laws;
pub mod nav;
pub mod order;
pub mod profiles;
pub mod rules;
pub mod text;
pub mod units;
pub mod app;
pub mod ui;
