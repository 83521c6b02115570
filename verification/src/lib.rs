//! A static-site build pipeline for a gemlog capsule: it pairs body files
//! with their metadata sidecars, validates and loads entries, assigns each
//! entry a templated URL and output path, aggregates the entries into a
//! sorted feed model, and plans the rendering and static-merge steps.
pub mod cli;
pub mod config;
pub mod entry;
pub mod entry_util;
pub mod error;
pub mod feed;
pub mod new;
pub mod output;
pub mod template;
pub mod text;
pub mod time;
pub mod urls;
pub mod value;
