//! Operational intelligence for Bitcoin and Lightning nodes.

pub mod action;
pub mod btcpay_adapter;
pub mod btcpay_model;
pub mod btcpay_webhook;
pub mod codec;
pub mod core_chain;
pub mod domain;
pub mod engine;
pub mod execution;
pub mod finding;
pub mod graph;
pub mod history;
pub mod identity;
pub mod ingest;
pub mod json;
pub mod llm;
pub mod lnd_client;
pub mod lnd_model;
pub mod lnd_normalize;
pub mod memory_storage;
pub mod migrations;
pub mod model;
pub mod numeric;
pub mod path;
pub mod portion;
pub mod ratio;
pub mod records;
pub mod retention;
pub mod simulation_app;
pub mod simulator;
pub mod status;
pub mod text;
pub mod time;
