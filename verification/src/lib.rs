pub mod text;
pub mod width;
pub mod ansi;
pub mod palette;
pub mod width_laws;
pub mod layout;
pub mod layout_laws;
pub mod input_field;
pub mod keys;
pub mod shell;
pub mod paths;
pub mod naming;
pub mod tokens;
pub mod fuzzy;
pub mod commands;
pub mod selector;
pub mod render;
pub mod script;
pub mod gituri;
pub mod cli;
pub mod laws;
pub mod terminal;
