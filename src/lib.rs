//! Selects files of a directory tree by glob patterns and hidden-file policy,
//! and renders the selected files as one Markdown or JSON document.
//!
//! The library works on plain values: the caller walks the tree and reads the
//! files, and hands over relative paths (with `/` separators) and contents.
pub mod cli;
pub mod decode;
pub mod export;
pub mod laws;
pub mod paths;
pub mod pattern;
pub mod selection;

pub use cli::{parse_args, render_output, ArgError, Cli, OutputFormat, OutputStyle};
pub use export::{
    build_file_entries, create_json_output, create_markdown_output, json_from_quoted,
    json_string_literal, FileEntry,
};
pub use laws::{
    lemma_default_selection, lemma_empty_export, lemma_hidden_segment_anywhere,
    lemma_json_round_trip,
    lemma_selection_idempotent, lemma_selection_order_independent,
};
pub use paths::{is_hidden, path_hidden};
pub use pattern::{glob_path_matches, glob_pattern_valid};
pub use selection::{get_filtered_files, selection, SelectError};
