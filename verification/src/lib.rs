//! Install engine for JavaScript packages: verified planning logic for a
//! content-addressed, link-farm `node_modules` layout.

pub mod commands;
pub mod errors;
pub mod extract;
pub mod filemap;
pub mod gitconfig;
pub mod gzip;
pub mod install;
pub mod integrity;
pub mod layout;
pub mod links;
pub mod materialize;
pub mod package;
pub mod pipeline;
pub mod platform;
pub mod scripts;
pub mod store;
pub mod tar;
pub mod text;
