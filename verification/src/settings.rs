//! The settings of the service, with the values they have where a settings
//! file says nothing.

use vstd::prelude::*;

verus! {

/// How much is logged.
#[derive(Debug, Clone, Copy, PartialEq, Eq, Structural)]
pub enum LoggingLevel {
    Error,
    Warn,
    Info,
    Debug,
    Trace,
}

impl Default for LoggingLevel {
    fn default() -> (level: LoggingLevel)
        ensures
            level == LoggingLevel::Info,
    {
        LoggingLevel::Info
    }
}

impl LoggingLevel {
    /// The name of the level as a settings file writes it.
    pub open spec fn spec_name(self) -> Seq<char> {
        match self {
            LoggingLevel::Error => "error"@,
            LoggingLevel::Warn => "warn"@,
            LoggingLevel::Info => "info"@,
            LoggingLevel::Debug => "debug"@,
            LoggingLevel::Trace => "trace"@,
        }
    }

    /// The name of the level as a settings file writes it.
    pub fn name(&self) -> (name: &'static str)
        ensures
            name@ == self.spec_name(),
    {
        match self {
            LoggingLevel::Error => "error",
            LoggingLevel::Warn => "warn",
            LoggingLevel::Info => "info",
            LoggingLevel::Debug => "debug",
            LoggingLevel::Trace => "trace",
        }
    }
}

/// The shape of a log line.
#[derive(Debug, Clone, Copy, PartialEq, Eq, Structural)]
pub enum LoggingFormat {
    Full,
    Compact,
    Pretty,
    Json,
}

impl Default for LoggingFormat {
    fn default() -> (format: LoggingFormat)
        ensures
            format == LoggingFormat::Full,
    {
        LoggingFormat::Full
    }
}

impl LoggingFormat {
    /// The name of the format as a settings file writes it.
    pub open spec fn spec_name(self) -> Seq<char> {
        match self {
            LoggingFormat::Full => "full"@,
            LoggingFormat::Compact => "compact"@,
            LoggingFormat::Pretty => "pretty"@,
            LoggingFormat::Json => "json"@,
        }
    }

    /// The name of the format as a settings file writes it.
    pub fn name(&self) -> (name: &'static str)
        ensures
            name@ == self.spec_name(),
    {
        match self {
            LoggingFormat::Full => "full",
            LoggingFormat::Compact => "compact",
            LoggingFormat::Pretty => "pretty",
            LoggingFormat::Json => "json",
        }
    }
}

/// Logging to files that are rotated daily.
#[derive(Debug, Clone, PartialEq, Eq)]
pub struct LoggingFile {
    pub enabled: bool,
    /// The directory of the log files.
    pub path: String,
    /// How many log files are kept.
    pub max_count: usize,
    pub format: LoggingFormat,
}

impl Default for LoggingFile {
    fn default() -> (file: LoggingFile)
        ensures
            !file.enabled,
            file.path@ == "logs"@,
            file.max_count == 7,
            file.format == LoggingFormat::Full,
    {
        LoggingFile {
            enabled: false,
            path: "logs".to_owned(),
            max_count: 7,
            format: LoggingFormat::Full,
        }
    }
}

/// What is logged, and where to.
#[derive(Debug, Clone, PartialEq, Eq)]
pub struct Logging {
    pub enabled: bool,
    pub level: LoggingLevel,
    pub file: LoggingFile,
    pub format: LoggingFormat,
}

impl Default for Logging {
    fn default() -> (logging: Logging)
        ensures
            logging.enabled,
            logging.level == LoggingLevel::Info,
            logging.format == LoggingFormat::Full,
            !logging.file.enabled,
            logging.file.path@ == "logs"@,
            logging.file.max_count == 7,
            logging.file.format == LoggingFormat::Full,
    {
        Logging {
            enabled: true,
            level: LoggingLevel::Info,
            file: LoggingFile::default(),
            format: LoggingFormat::Full,
        }
    }
}

/// The store that the service keeps its data in.
#[derive(Debug, Clone, PartialEq, Eq)]
pub struct PostgresDB {
    /// Where the store is reached.
    pub uri: String,
    pub max_connections: u32,
    pub min_connections: u32,
}

impl Default for PostgresDB {
    fn default() -> (db: PostgresDB)
        ensures
            db.uri@ == "postgres://localhost:5432/postgres"@,
            db.max_connections == 10,
            db.min_connections == 1,
    {
        PostgresDB {
            uri: "postgres://localhost:5432/postgres".to_owned(),
            max_connections: 10,
            min_connections: 1,
        }
    }
}

/// All settings of the service.
#[derive(Debug, Clone, PartialEq, Eq)]
pub struct Settings {
    pub logging: Logging,
    pub postgres_db: PostgresDB,
}

impl Default for Settings {
    fn default() -> (settings: Settings)
        ensures
            settings.logging.enabled,
            settings.logging.level == LoggingLevel::Info,
            settings.logging.format == LoggingFormat::Full,
            !settings.logging.file.enabled,
            settings.logging.file.path@ == "logs"@,
            settings.logging.file.max_count == 7,
            settings.logging.file.format == LoggingFormat::Full,
            settings.postgres_db.uri@ == "postgres://localhost:5432/postgres"@,
            settings.postgres_db.max_connections == 10,
            settings.postgres_db.min_connections == 1,
    {
        Settings { logging: Logging::default(), postgres_db: PostgresDB::default() }
    }
}

} // verus!
