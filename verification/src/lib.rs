//! Verified core of the exo-self hook handlers: note parsing, trace
//! extraction, project slugs and the decisions the hooks take.
pub mod text;
pub mod markdown;
pub mod project;
pub mod sigil;
pub mod paths;
pub mod hook_io;
pub mod cli;
pub mod state;
pub mod meta;
pub mod commands;
pub mod nudging;
pub mod reflect;
pub mod traces;
pub mod ingest;
pub mod config;
pub mod frontmatter;
