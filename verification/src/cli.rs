//! The configuration of one run.

use vstd::prelude::*;

verus! {

/// The options of one search run.
#[derive(Debug, Clone)]
pub struct Args {
    /// Regex pattern to search for.
    pub pattern: String,
    /// File paths to search.
    pub path: Vec<String>,
    /// Number of threads to use (0 = auto).
    pub threads: usize,
    /// Recursively search directories.
    pub recursive: bool,
    /// Case-sensitive matching.
    pub case_sensitive: bool,
    /// Show line numbers.
    pub line_numbers: bool,
    /// Only print filenames with matches.
    pub files_with_matches: bool,
    /// Count matches per file.
    pub count: bool,
    /// Display progress bar.
    pub progress: bool,
    /// Chunk size in KiB.
    pub chunk_size: usize,
    /// Output format.
    pub format: OutputFormat,
    /// Logging level.
    pub log_level: LogLevel,
}

/// The output formats that can be asked for.
#[derive(Debug, Clone, Copy, PartialEq, Eq, Structural)]
pub enum OutputFormat {
    Text,
    Json,
    Grep,
}

/// The logging levels that can be asked for.
#[derive(Debug, Clone, Copy, PartialEq, Eq, Structural)]
pub enum LogLevel {
    Off,
    Error,
    Warn,
    Info,
    Debug,
    Trace,
}

impl LogLevel {
    /// The name of the level as a log filter takes it.
    pub open spec fn spec_filter_name(self) -> Seq<char> {
        match self {
            LogLevel::Off => "off"@,
            LogLevel::Error => "error"@,
            LogLevel::Warn => "warn"@,
            LogLevel::Info => "info"@,
            LogLevel::Debug => "debug"@,
            LogLevel::Trace => "trace"@,
        }
    }

    /// The name of the level as a log filter takes it.
    pub fn filter_name(&self) -> (name: &'static str)
        ensures
            name@ == self.spec_filter_name(),
    {
        match self {
            LogLevel::Off => "off",
            LogLevel::Error => "error",
            LogLevel::Warn => "warn",
            LogLevel::Info => "info",
            LogLevel::Debug => "debug",
            LogLevel::Trace => "trace",
        }
    }
}

impl Args {
    /// The chunk size in bytes: 1024 times the configured number, where that
    /// fits the machine.
    pub fn chunk_bytes(&self) -> (bytes: Option<usize>)
        ensures
            bytes == if self.chunk_size * 1024 <= usize::MAX {
                Some((self.chunk_size * 1024) as usize)
            } else {
                None
            },
    {
        self.chunk_size.checked_mul(1024)
    }
}

} // verus!
