//! The settings of a subgit, written once at setup and read by every hook.

use vstd::prelude::*;
use crate::action::{entry_of, join_entry, HookContext, RecursionDetection};
use crate::text::{clone_strings, string_views};

verus! {

/// The name of the settings file in the data directory.
pub const SETTINGS_FILE: &'static str = "settings.json";

/// How much is written to the log.
#[derive(Clone, Copy, Debug, PartialEq, Eq, Structural)]
pub enum LogLevel {
    Off,
    Error,
    Warn,
    Info,
    Debug,
    Trace,
}

impl LogLevel {
    /// The level in capital letters.
    pub open spec fn name(self) -> Seq<char> {
        match self {
            LogLevel::Off => "OFF"@,
            LogLevel::Error => "ERROR"@,
            LogLevel::Warn => "WARN"@,
            LogLevel::Info => "INFO"@,
            LogLevel::Debug => "DEBUG"@,
            LogLevel::Trace => "TRACE"@,
        }
    }

    /// The level in capital letters.
    pub fn as_str(self) -> (r: &'static str)
        ensures
            r@ == self.name(),
    {
        match self {
            LogLevel::Off => "OFF",
            LogLevel::Error => "ERROR",
            LogLevel::Warn => "WARN",
            LogLevel::Info => "INFO",
            LogLevel::Debug => "DEBUG",
            LogLevel::Trace => "TRACE",
        }
    }
}

/// What the settings file holds.
#[derive(Debug, PartialEq, Eq)]
pub struct SettingsFile {
    pub upstream_path: String,
    pub subgit_path: String,
    pub file_log_level: LogLevel,
    pub recursion_detection: RecursionDetection,
    pub filters: Vec<String>,
}

/// The settings of a subgit and the data directory that they were read from.
#[derive(Debug, PartialEq, Eq)]
pub struct Settings {
    pub internal: SettingsFile,
    pub data_dir: String,
}

impl Settings {
    /// The settings of a new subgit whose data directory is `path`.
    pub fn generate(
        path: &str,
        upstream_path: String,
        subgit_path: String,
        file_log_level: LogLevel,
        recursion_detection: RecursionDetection,
        filters: Vec<String>,
    ) -> (r: Settings)
        ensures
            r.data_dir@ == path@,
            r.internal.upstream_path == upstream_path,
            r.internal.subgit_path == subgit_path,
            r.internal.file_log_level == file_log_level,
            r.internal.recursion_detection == recursion_detection,
            r.internal.filters == filters,
    {
        Settings {
            internal: SettingsFile {
                upstream_path,
                subgit_path,
                file_log_level,
                recursion_detection,
                filters,
            },
            data_dir: path.to_owned(),
        }
    }

    /// Whether the hook is to end at once, because its invocation was caused
    /// by a push of the synchronisation itself.
    pub fn should_abort_hook(&self, context: &HookContext) -> (r: bool)
        ensures
            r == self.internal.recursion_detection.recursing(*context),
    {
        let status = self.internal.recursion_detection.detect_recursion(context);
        status.is_recursing
    }

    /// How a hook finds out that it was run by the synchronisation itself.
    pub fn recursion_detection(&self) -> (r: RecursionDetection)
        ensures
            r == self.internal.recursion_detection,
    {
        self.internal.recursion_detection.clone()
    }

    /// The directory of the upstream repository that is republished.
    pub fn upstream_path(&self) -> (r: String)
        ensures
            r@ == self.internal.upstream_path@,
    {
        self.internal.upstream_path.clone()
    }

    /// The directory of the subgit repository under which it is republished.
    pub fn local_path(&self) -> (r: String)
        ensures
            r@ == self.internal.subgit_path@,
    {
        self.internal.subgit_path.clone()
    }

    /// The prefixes of the refs that are mirrored.
    pub fn filters(&self) -> (r: Vec<String>)
        ensures
            string_views(r@) == string_views(self.internal.filters@),
    {
        clone_strings(&self.internal.filters)
    }

    /// The level at which the hooks write to the log file.
    pub fn file_log_level(&self) -> (r: LogLevel)
        ensures
            r == self.internal.file_log_level,
    {
        self.internal.file_log_level
    }

    /// The path of the settings file.
    pub fn settings_file(&self) -> (r: String)
        ensures
            r@ == entry_of(self.data_dir@, SETTINGS_FILE@),
    {
        join_entry(self.data_dir.as_str(), SETTINGS_FILE)
    }

    /// The path of the log file of the hooks.
    pub fn log_file(&self) -> (r: String)
        ensures
            r@ == entry_of(entry_of(self.data_dir@, "logs"@), "sync.log"@),
    {
        join_entry(join_entry(self.data_dir.as_str(), "logs").as_str(), "sync.log")
    }
}

} // verus!
