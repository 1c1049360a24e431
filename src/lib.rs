//! Scans source lines for breadcrumb comments (TODO, FIXME, NOTE, XXX),
//! cuts a window of context around each one and renders the result as
//! markdown or as console lines.

pub mod text;
pub mod comment_type;
pub mod markdown;
pub mod line;
pub mod parsed_data;
pub mod marked_section;
pub mod tokenized_line;
pub mod output_block;
pub mod output_formatter;
pub mod printer;
pub mod cli;
pub mod parser;
pub mod code_patch;
