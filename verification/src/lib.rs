pub mod cache;
pub mod cst;
pub mod handler;
pub mod interpret;
pub mod laws;
pub mod loader;
pub mod node_ext;
pub mod openvas_funcs;
pub mod strutil;
pub mod types;
