use vstd::prelude::*;
use vstd::string::StrSliceExecFns;
use crate::text::{to_owned_string, push_str};

verus! {

/// Severity levels, from the most to the least severe.
#[derive(Debug, Clone, Copy, PartialEq, Eq, Structural)]
pub enum LogLevel {
    Error,
    Warn,
    Info,
    Debug,
    Trace,
}

/// Failures of logging setup.
#[derive(Debug)]
pub enum LoggingError {
    Io(std::io::Error),
    InvalidLevel { message: String },
    AlreadyInitialized,
    FileOperation { message: String },
}

/// Calls `<std::io::Error as Display>::fmt` through `format!`. Nothing is
/// claimed of the text: for an operating-system error it comes from the
/// system.
#[verifier::external_body]
fn io_error_text(e: &std::io::Error) -> String {
    format!("{}", e)
}

impl LoggingError {
    /// The error's message.
    pub fn to_string(&self) -> (r: String)
        ensures
            match self {
                LoggingError::Io(_) => crate::text::has_prefix(r@, "IO error: "@),
                LoggingError::InvalidLevel { message } => r@ == "Log level parse error: "@ + message@,
                LoggingError::AlreadyInitialized => r@ == "Logger already initialized"@,
                LoggingError::FileOperation { message } => r@ == "File operation error: "@ + message@,
            },
    {
        match self {
            LoggingError::Io(e) => {
                let mut s = to_owned_string("IO error: ");
                let detail = io_error_text(e);
                push_str(&mut s, detail.as_str());
                proof {
                    reveal_strlit("IO error: ");
                    assert(s@.subrange(0, "IO error: "@.len() as int) =~= "IO error: "@);
                }
                s
            },
            LoggingError::InvalidLevel { message } => {
                let mut s = to_owned_string("Log level parse error: ");
                push_str(&mut s, message.as_str());
                s
            },
            LoggingError::AlreadyInitialized => to_owned_string("Logger already initialized"),
            LoggingError::FileOperation { message } => {
                let mut s = to_owned_string("File operation error: ");
                push_str(&mut s, message.as_str());
                s
            },
        }
    }
}

/// Where log lines go.
#[derive(Debug, Clone, PartialEq, Eq)]
pub enum LogOutput {
    Stdout,
    Stderr,
    /// A file, by its path.
    File(String),
}

/// How log lines look.
#[derive(Debug, Clone, Copy, PartialEq, Eq, Structural)]
pub enum LogFormat {
    /// Human-readable with colors.
    Pretty,
    /// Compact human-readable.
    Compact,
}

/// The logging section of a configuration.
#[derive(Debug, Clone)]
pub struct LoggingConfig {
    pub level: String,
    pub json_format: bool,
    pub colored_output: bool,
    pub include_thread_ids: bool,
    pub include_line_numbers: bool,
    pub log_file: Option<String>,
    pub log_file_max_size_mb: Option<u64>,
    pub log_file_max_count: Option<u32>,
}

/// A logging setup, built step by step.
#[derive(Debug, Clone)]
pub struct LoggingBuilder {
    pub level: LogLevel,
    pub format: LogFormat,
    pub output: LogOutput,
    pub include_thread_ids: bool,
    pub include_line_numbers: bool,
    pub include_target: bool,
    pub colored_output: bool,
    pub log_file: Option<String>,
}

/// The default setup: info level, pretty, to stdout, with targets and
/// colors, without thread ids, line numbers or a file.
pub open spec fn default_builder() -> LoggingBuilder {
    LoggingBuilder {
        level: LogLevel::Info,
        format: LogFormat::Pretty,
        output: LogOutput::Stdout,
        include_thread_ids: false,
        include_line_numbers: false,
        include_target: true,
        colored_output: true,
        log_file: None,
    }
}

impl Default for LoggingBuilder {
    fn default() -> (r: Self)
        ensures
            r == default_builder(),
    {
        LoggingBuilder {
            level: LogLevel::Info,
            format: LogFormat::Pretty,
            output: LogOutput::Stdout,
            include_thread_ids: false,
            include_line_numbers: false,
            include_target: true,
            colored_output: true,
            log_file: None,
        }
    }
}

/// `c` with an ASCII capital turned into its small letter.
pub open spec fn ascii_lower(c: char) -> char {
    if 'A' <= c && c <= 'Z' { (((c as u8) + 32) as u8) as char } else { c }
}

/// `s` with its ASCII capitals made small.
pub open spec fn lowered(s: Seq<char>) -> Seq<char> {
    s.map_values(|c: char| ascii_lower(c))
}

/// The level a name stands for, ignoring case ("warning" is "warn").
pub open spec fn spec_level(name: Seq<char>) -> Option<LogLevel> {
    let l = lowered(name);
    if l == "error"@ {
        Some(LogLevel::Error)
    } else if l == "warn"@ || l == "warning"@ {
        Some(LogLevel::Warn)
    } else if l == "info"@ {
        Some(LogLevel::Info)
    } else if l == "debug"@ {
        Some(LogLevel::Debug)
    } else if l == "trace"@ {
        Some(LogLevel::Trace)
    } else {
        None
    }
}

/// Whether `s` equals `word` once its ASCII capitals are made small.
fn lower_equals(s: &str, word: &str) -> (r: bool)
    ensures
        r == (lowered(s@) == word@),
{
    let n = s.unicode_len();
    let m = word.unicode_len();
    if n != m {
        proof {
            if lowered(s@) == word@ {
                assert(lowered(s@).len() == n);
            }
        }
        return false;
    }
    let mut i: usize = 0;
    while i < n
        invariant
            i <= n,
            n == s@.len(),
            m == n,
            m == word@.len(),
            forall|j: int| 0 <= j < i ==> ascii_lower(s@[j]) == word@[j],
        decreases n - i,
    {
        let c = s.get_char(i);
        let lc = if 'A' <= c && c <= 'Z' { ((c as u8) + 32) as char } else { c };
        assert(lc == ascii_lower(c));
        if lc != word.get_char(i) {
            proof {
                if lowered(s@) == word@ {
                    assert(lowered(s@)[i as int] == ascii_lower(s@[i as int]));
                }
            }
            return false;
        }
        i = i + 1;
    }
    assert(lowered(s@) =~= word@);
    true
}

/// The error for a name that is no level.
pub open spec fn invalid_level_message(name: Seq<char>) -> Seq<char> {
    "Invalid log level '"@ + name + "', must be one of: error, warn, info, debug, trace"@
}

/// The level that `level` names, in any case ("warning" also names warn).
pub fn parse_log_level(level: &str) -> (r: Result<LogLevel, LoggingError>)
    ensures
        match spec_level(level@) {
            Some(l) => r matches Ok(x) && x == l,
            None => r matches Err(LoggingError::InvalidLevel { message }) && message@ == invalid_level_message(level@),
        },
{
    if lower_equals(level, "error") {
        Ok(LogLevel::Error)
    } else if lower_equals(level, "warn") || lower_equals(level, "warning") {
        Ok(LogLevel::Warn)
    } else if lower_equals(level, "info") {
        Ok(LogLevel::Info)
    } else if lower_equals(level, "debug") {
        Ok(LogLevel::Debug)
    } else if lower_equals(level, "trace") {
        Ok(LogLevel::Trace)
    } else {
        let mut message = to_owned_string("Invalid log level '");
        push_str(&mut message, level);
        push_str(&mut message, "', must be one of: error, warn, info, debug, trace");
        Err(LoggingError::InvalidLevel { message })
    }
}

impl LoggingBuilder {
    /// The default setup.
    pub fn new() -> (r: Self)
        ensures
            r == default_builder(),
    {
        Self::default()
    }

    /// Sets the level.
    pub fn level(self, level: LogLevel) -> (r: Self)
        ensures
            r == (LoggingBuilder { level, ..self }),
    {
        LoggingBuilder { level, ..self }
    }

    /// Sets the level from its name; fails on a name that is no level.
    pub fn level_from_str(self, level: &str) -> (r: Result<Self, LoggingError>)
        ensures
            match spec_level(level@) {
                Some(l) => r matches Ok(b) && b == (LoggingBuilder { level: l, ..self }),
                None => r matches Err(LoggingError::InvalidLevel { message }) && message@ == invalid_level_message(level@),
            },
    {
        match parse_log_level(level) {
            Ok(l) => Ok(LoggingBuilder { level: l, ..self }),
            Err(e) => Err(e),
        }
    }

    /// Sets the format.
    pub fn format(self, format: LogFormat) -> (r: Self)
        ensures
            r == (LoggingBuilder { format, ..self }),
    {
        LoggingBuilder { format, ..self }
    }

    /// Sets where lines go.
    pub fn output(self, output: LogOutput) -> (r: Self)
        ensures
            r == (LoggingBuilder { output, ..self }),
    {
        LoggingBuilder { output, ..self }
    }

    /// Shows or hides thread ids.
    pub fn include_thread_ids(self, enabled: bool) -> (r: Self)
        ensures
            r == (LoggingBuilder { include_thread_ids: enabled, ..self }),
    {
        LoggingBuilder { include_thread_ids: enabled, ..self }
    }

    /// Shows or hides line numbers.
    pub fn include_line_numbers(self, enabled: bool) -> (r: Self)
        ensures
            r == (LoggingBuilder { include_line_numbers: enabled, ..self }),
    {
        LoggingBuilder { include_line_numbers: enabled, ..self }
    }

    /// Shows or hides targets.
    pub fn include_target(self, enabled: bool) -> (r: Self)
        ensures
            r == (LoggingBuilder { include_target: enabled, ..self }),
    {
        LoggingBuilder { include_target: enabled, ..self }
    }

    /// Turns colors on or off.
    pub fn colored_output(self, colored: bool) -> (r: Self)
        ensures
            r == (LoggingBuilder { colored_output: colored, ..self }),
    {
        LoggingBuilder { colored_output: colored, ..self }
    }

    /// Sets the log file.
    pub fn log_file(self, path: &str) -> (r: Self)
        ensures
            r.log_file matches Some(p) && p@ == path@,
            r == (LoggingBuilder { log_file: r.log_file, ..self }),
    {
        LoggingBuilder { log_file: Some(to_owned_string(path)), ..self }
    }

    /// The setup a configuration asks for: its level, thread ids, line
    /// numbers and colors, with targets; compact where JSON is asked (JSON
    /// is not offered), pretty otherwise; to the configured file, or to
    /// stdout. Fails when the level is no level.
    pub fn from_config(config: &LoggingConfig) -> (r: Result<Self, LoggingError>)
        ensures
            match spec_level(config.level@) {
                None => r matches Err(LoggingError::InvalidLevel { message }) && message@ == invalid_level_message(config.level@),
                Some(l) => r matches Ok(b) && {
                    &&& b.level == l
                    &&& b.format == (if config.json_format { LogFormat::Compact } else { LogFormat::Pretty })
                    &&& b.include_thread_ids == config.include_thread_ids
                    &&& b.include_line_numbers == config.include_line_numbers
                    &&& b.include_target
                    &&& b.colored_output == config.colored_output
                    &&& match config.log_file {
                        Some(path) => (b.log_file matches Some(p) && p@ == path@)
                            && (b.output matches LogOutput::File(p) && p@ == path@),
                        None => b.log_file is None && b.output == LogOutput::Stdout,
                    }
                },
            },
    {
        let builder = match Self::new().level_from_str(config.level.as_str()) {
            Ok(b) => b,
            Err(e) => return Err(e),
        };
        let mut builder = builder
            .include_thread_ids(config.include_thread_ids)
            .include_line_numbers(config.include_line_numbers)
            .include_target(true)
            .colored_output(config.colored_output);
        builder.format = if config.json_format {
            LogFormat::Compact
        } else {
            LogFormat::Pretty
        };
        match &config.log_file {
            Some(path) => {
                builder = builder.log_file(path.as_str());
                builder.output = LogOutput::File(to_owned_string(path.as_str()));
            },
            None => {
                builder.output = LogOutput::Stdout;
            },
        }
        Ok(builder)
    }

    /// The setup for tests: debug level, compact, to stderr, no colors.
    pub fn for_tests() -> (r: Self)
        ensures
            r == (LoggingBuilder {
                level: LogLevel::Debug,
                format: LogFormat::Compact,
                output: LogOutput::Stderr,
                colored_output: false,
                ..default_builder()
            }),
    {
        Self::new().level(LogLevel::Debug).format(LogFormat::Compact).output(LogOutput::Stderr).colored_output(false)
    }
}

} // verus!
