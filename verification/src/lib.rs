pub mod text;
pub mod status;
pub mod proto;
pub mod params;
pub mod domain;
pub mod adapter;
pub mod backend;
pub mod jobs;
pub mod models;
pub mod worker;
pub mod api;
pub mod routes;
