use vstd::prelude::*;
use vstd::string::*;

use crate::export::{
    create_json_output, create_markdown_output, entries_view, json_export, markdown_document,
    FileEntry,
};

verus! {

/// The settings of one run.
#[derive(Debug)]
pub struct Cli {
    /// The repository to fetch.
    pub github_url: String,
    /// Glob pattern of files to leave out.
    pub exclude_pattern: Option<String>,
    /// Glob pattern of files to keep; every file when absent.
    pub include_pattern: Option<String>,
    /// The format of the document.
    pub format: OutputFormat,
    /// Whether hidden files are kept.
    pub hidden: bool,
    /// Where the document goes; its extension is set by the format.
    pub output_file: String,
}

/// How the result is laid out on disk.
#[derive(Clone, Copy, Debug, PartialEq, Eq, Structural)]
pub enum OutputStyle {
    Folder,
    OneFile,
}

/// The format of the exported document.
#[derive(Clone, Copy, Debug, PartialEq, Eq, Structural)]
pub enum OutputFormat {
    Json,
    Markdown,
}

/// Why the settings were refused.
#[derive(Debug, PartialEq, Eq)]
pub enum ArgError {
    /// The format name is neither `json` nor `markdown`; it carries the name.
    UnknownFormat(String),
}

/// The format that a command-line value names.
pub open spec fn format_named(name: Seq<char>) -> Option<OutputFormat> {
    if name == "json"@ {
        Some(OutputFormat::Json)
    } else if name == "markdown"@ {
        Some(OutputFormat::Markdown)
    } else {
        None
    }
}

/// The output path when none is given.
pub open spec fn default_output_file() -> Seq<char> {
    "output"@
}

impl OutputFormat {
    /// The format named `json` or `markdown`, if `name` is one of them.
    pub fn from_name(name: &str) -> (r: Option<OutputFormat>)
        ensures
            r == format_named(name@),
    {
        let owned = String::from_str(name);
        if owned == String::from_str("json") {
            Some(OutputFormat::Json)
        } else if owned == String::from_str("markdown") {
            Some(OutputFormat::Markdown)
        } else {
            None
        }
    }

    /// The extension that the output file gets: `json` or `md`.
    pub fn extension(&self) -> (r: &'static str)
        ensures
            r@ == match self {
                OutputFormat::Json => "json"@,
                OutputFormat::Markdown => "md"@,
            },
    {
        match self {
            OutputFormat::Json => "json",
            OutputFormat::Markdown => "md",
        }
    }
}

/// Builds the settings from the command-line values: the format defaults to
/// Markdown and the output path to `output`; an unknown format name is
/// refused.
pub fn parse_args(
    github_url: String,
    exclude_pattern: Option<String>,
    include_pattern: Option<String>,
    format: Option<String>,
    hidden: bool,
    output_file: Option<String>,
) -> (r: Result<Cli, ArgError>)
    ensures
        match r {
            Ok(cli) => {
                &&& cli.github_url == github_url
                &&& cli.exclude_pattern == exclude_pattern
                &&& cli.include_pattern == include_pattern
                &&& cli.format == match format {
                    Some(f) => format_named(f@)->0,
                    None => OutputFormat::Markdown,
                }
                &&& format matches Some(f) ==> format_named(f@) is Some
                &&& cli.hidden == hidden
                &&& cli.output_file@ == match output_file {
                    Some(o) => o@,
                    None => default_output_file(),
                }
            },
            Err(ArgError::UnknownFormat(f)) => format == Some(f) && format_named(f@) is None,
        },
{
    let format = match format {
        Some(name) => match OutputFormat::from_name(name.as_str()) {
            Some(f) => f,
            None => return Err(ArgError::UnknownFormat(name)),
        },
        None => OutputFormat::Markdown,
    };
    let output_file = match output_file {
        Some(o) => o,
        None => String::from_str("output"),
    };
    Ok(Cli { github_url, exclude_pattern, include_pattern, format, hidden, output_file })
}

/// Renders the entries in the chosen format (see `create_markdown_output`
/// and `create_json_output`).
pub fn render_output(format: OutputFormat, entries: &Vec<FileEntry>) -> (r: String)
    ensures
        r@ == match format {
            OutputFormat::Markdown => markdown_document(entries_view(entries@)),
            OutputFormat::Json => json_export(entries_view(entries@)),
        },
{
    match format {
        OutputFormat::Markdown => create_markdown_output(entries),
        OutputFormat::Json => create_json_output(entries),
    }
}

} // verus!
