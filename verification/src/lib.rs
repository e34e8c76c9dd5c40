//! hexplorer — the verified core of a HEX.pm browser for the BEAM ecosystem.

pub mod text;
pub mod types;
pub mod fmt;
pub mod args;
pub mod api;
pub mod docs;
pub mod index_url;
pub mod docs_fetch;
pub mod strmap;
pub mod cache;
pub mod favorites;
pub mod storage;
pub mod listing;
pub mod app;
pub mod export_types;
pub mod output;
pub mod screen;
pub mod storage_cmd;
