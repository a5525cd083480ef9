//! The commands of the language, one module each.
pub mod append;
pub mod branch;
pub mod branch_if_not_sub;
pub mod branch_if_sub;
pub mod change;
pub mod delete;
pub mod delete_first_line;
pub mod exchange;
pub mod get_append;
pub mod get_replace;
pub mod hold_append;
pub mod hold_replace;
pub mod insert;
pub mod label;
pub mod next;
pub mod next_append;
pub mod print;
pub mod print_first_line;
pub mod print_line_number;
pub mod quit;
pub mod quit_noprint;
pub mod read_file;
pub mod substitute;
pub mod transliterate;
pub mod write_file;
pub mod write_first_line;
