use vstd::prelude::*;

verus! {

/// Failures that reach the log. Each carries the collaborator's own
/// description of what went wrong.
pub enum BotError {
    /// A file could not be read; `folder` is the working folder that was
    /// searched, when it could be determined.
    Io { detail: String, folder: Option<String> },
    /// The configuration file did not parse.
    Toml(String),
    /// A request to the chat service failed.
    Discord(String),
}

pub open spec fn error_text(e: BotError) -> Seq<char> {
    match e {
        BotError::Io { detail, folder } => match folder {
            None => "Error getting info about current folder! Make sure you have the correct permissions. "@
                + detail@,
            Some(f) => "Error reading file. Looking in path \""@ + f@ + "\". "@ + detail@,
        },
        BotError::Toml(d) => "Error parsing configuration file! "@ + d@,
        BotError::Discord(d) => "Error communicating with Discord API! "@ + d@,
    }
}

impl BotError {
    /// The operator-facing description of the error.
    pub fn message(&self) -> (r: String)
        ensures
            r@ == error_text(*self),
    {
        match self {
            BotError::Io { detail, folder } => match folder {
                None => {
                    let mut s = String::from_str(
                        "Error getting info about current folder! Make sure you have the correct permissions. ",
                    );
                    s.append(detail.as_str());
                    s
                },
                Some(f) => {
                    let mut s = String::from_str("Error reading file. Looking in path \"");
                    s.append(f.as_str());
                    s.append("\". ");
                    s.append(detail.as_str());
                    s
                },
            },
            BotError::Toml(d) => {
                let mut s = String::from_str("Error parsing configuration file! ");
                s.append(d.as_str());
                s
            },
            BotError::Discord(d) => {
                let mut s = String::from_str("Error communicating with Discord API! ");
                s.append(d.as_str());
                s
            },
        }
    }
}

#[derive(Clone, Copy, Debug, PartialEq, Eq, Structural)]
pub enum LogLevel {
    Info,
    Error,
}

/// One line for the log, before it is timestamped and written out.
pub struct LogRecord {
    pub level: LogLevel,
    pub text: String,
}

/// Values that can be written to the log.
pub trait Log {
    /// The record this value contributes to the log, if any.
    fn log(&self) -> Option<LogRecord>;
}

impl Log for BotError {
    fn log(&self) -> (r: Option<LogRecord>)
        ensures
            r matches Some(rec) && rec.level == LogLevel::Error && rec.text@ == error_text(*self),
    {
        Some(LogRecord { level: LogLevel::Error, text: self.message() })
    }
}

impl Log for String {
    fn log(&self) -> (r: Option<LogRecord>)
        ensures
            r matches Some(rec) && rec.level == LogLevel::Info && rec.text@ == self@,
    {
        Some(LogRecord { level: LogLevel::Info, text: self.clone() })
    }
}

impl<T> Log for Result<T, BotError> {
    /// Only a failure is logged.
    fn log(&self) -> (r: Option<LogRecord>)
        ensures
            match self {
                Ok(_) => r is None,
                Err(e) => r matches Some(rec) && rec.level == LogLevel::Error && rec.text@
                    == error_text(*e),
            },
    {
        match self {
            Ok(_) => None,
            Err(e) => e.log(),
        }
    }
}

} // verus!
