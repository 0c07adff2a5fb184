pub mod apply;
pub mod commands;
pub mod gtk;
pub mod install;
pub mod kdl_doc;
pub mod text;
pub mod theme;
pub mod toml_doc;
pub mod varmap;
