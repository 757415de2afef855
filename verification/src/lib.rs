pub mod access;
pub mod auth;
pub mod db;
pub mod fingerprint;
pub mod models;
pub mod parser;
pub mod pattern;
pub mod shipper;
pub mod text;
