//! Core library of a 3DMigoto mod manager: catalog models, download
//! bookkeeping, local metadata indexing and the text rules they rely on.

pub mod cache;
pub mod catalog_view;
pub mod config;
pub mod cdn_client;
pub mod detail_view;
pub mod download_queue;
pub mod download_task;
pub mod downloads;
pub mod filter_data;
pub mod game_ids;
pub mod gamebanana;
pub mod i18n;
pub mod img_cache;
pub mod manager;
pub mod meta_manager;
pub mod name_query;
pub mod models;
pub mod order;
pub mod pixels;
pub mod restore;
pub mod paths;
pub mod perf;
pub mod runtime;
pub mod scheduler;
pub mod text;
pub mod transfer;
