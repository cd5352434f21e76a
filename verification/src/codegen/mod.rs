pub mod pretty_print;
pub mod transpile;
