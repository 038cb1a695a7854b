//! Session logging: the layout of the log directory, the exact text of each
//! log line, and the retention rule for archived session logs. Writing the
//! lines to disk and reading timestamps from the clock are the caller's
//! concern.

use vstd::prelude::*;
use vstd::string::{StrSliceExecFns, StringExecFns};

verus! {

/// How many archived session logs are kept.
pub const MAX_LOG_FILES: usize = 69;

/// A session logger: where its files live and when the session started.
pub struct Logger {
    pub log_dir: String,
    pub latest_log_file: String,
    pub session_start_time: String,
    pub max_log_files: usize,
}

/// The mathematical content of a `Logger`.
pub ghost struct LoggerV {
    pub log_dir: Seq<char>,
    pub latest_log_file: Seq<char>,
    pub session_start_time: Seq<char>,
    pub max_log_files: int,
}

impl View for Logger {
    type V = LoggerV;

    open spec fn view(&self) -> LoggerV {
        LoggerV {
            log_dir: self.log_dir@,
            latest_log_file: self.latest_log_file@,
            session_start_time: self.session_start_time@,
            max_log_files: self.max_log_files as int,
        }
    }
}

/// The text of one log line: the level in brackets, the timestamp, and the
/// message, ended by a newline.
pub open spec fn spec_log_line(level: Seq<char>, timestamp: Seq<char>, message: Seq<char>) -> Seq<
    char,
> {
    "["@ + level + "] "@ + timestamp + ": "@ + message + "\n"@
}

/// Formats one log line.
fn log_line(level: &str, timestamp: &str, message: &str) -> (r: String)
    ensures
        r@ == spec_log_line(level@, timestamp@, message@),
{
    let mut r = "[".to_owned();
    r.append(level);
    r.append("] ");
    r.append(timestamp);
    r.append(": ");
    r.append(message);
    r.append("\n");
    proof {
        assert(r@ =~= spec_log_line(level@, timestamp@, message@));
    }
    r
}

impl Logger {
    /// Lays the logger out under the application's main directory: the log
    /// directory, the live log file inside it, the session start marker, and
    /// the retention limit.
    pub fn new(main_path: &str, session_start_time: String) -> (r: Logger)
        ensures
            r@.log_dir == main_path@ + "/"@ + "log"@ + "/"@ + "logs"@,
            r@.latest_log_file == r@.log_dir + "/"@ + "latest.log"@,
            r@.session_start_time == session_start_time@,
            r@.max_log_files == MAX_LOG_FILES as int,
    {
        let log_dir = crate::strutil::path_join(
            crate::strutil::path_join(main_path, "log").as_str(),
            "logs",
        );
        let latest_log_file = crate::strutil::path_join(log_dir.as_str(), "latest.log");
        proof {
            assert(log_dir@ =~= main_path@ + "/"@ + "log"@ + "/"@ + "logs"@);
            assert(latest_log_file@ =~= log_dir@ + "/"@ + "latest.log"@);
        }
        Logger { log_dir, latest_log_file, session_start_time, max_log_files: MAX_LOG_FILES }
    }

    /// The line logged for an informational message.
    pub fn info(&self, timestamp: &str, message: &str) -> (r: String)
        ensures
            r@ == spec_log_line("INFO"@, timestamp@, message@),
    {
        log_line("INFO", timestamp, message)
    }

    /// The line logged for a warning.
    pub fn warn(&self, timestamp: &str, message: &str) -> (r: String)
        ensures
            r@ == spec_log_line("WARN"@, timestamp@, message@),
    {
        log_line("WARN", timestamp, message)
    }

    /// The line logged for an error.
    pub fn error(&self, timestamp: &str, message: &str) -> (r: String)
        ensures
            r@ == spec_log_line("ERROR"@, timestamp@, message@),
    {
        log_line("ERROR", timestamp, message)
    }

    /// The line logged for a debugging message.
    pub fn debug(&self, timestamp: &str, message: &str) -> (r: String)
        ensures
            r@ == spec_log_line("DEBUG"@, timestamp@, message@),
    {
        log_line("DEBUG", timestamp, message)
    }

    /// The line logged for a message emitted before the logger was fully set
    /// up.
    pub fn pre(&self, timestamp: &str, message: &str) -> (r: String)
        ensures
            r@ == spec_log_line("PRE"@, timestamp@, message@),
    {
        log_line("PRE", timestamp, message)
    }

    /// The file name the live log is archived under at time `timestamp`.
    pub fn archive_file_name(&self, timestamp: &str) -> (r: String)
        ensures
            r@ == "log_"@ + timestamp@ + ".log"@,
    {
        let mut r = "log_".to_owned();
        r.append(timestamp);
        r.append(".log");
        proof {
            assert(r@ =~= "log_"@ + timestamp@ + ".log"@);
        }
        r
    }
}

/// The archived logs to delete under the retention rule: given the archive
/// names newest first, everything beyond the retention limit (and nothing
/// when the limit is not exceeded).
pub fn logs_to_delete(files: &Vec<String>, max_log_files: usize) -> (r: Vec<String>)
    ensures
        files@.len() > max_log_files ==> r@ == files@.skip(max_log_files as int),
        files@.len() <= max_log_files ==> r@ == Seq::<String>::empty(),
{
    let mut r: Vec<String> = Vec::new();
    if files.len() <= max_log_files {
        return r;
    }
    let mut i: usize = max_log_files;
    while i < files.len()
        invariant
            max_log_files <= i <= files@.len(),
            r@ == files@.subrange(max_log_files as int, i as int),
        decreases files@.len() - i,
    {
        r.push(files[i].clone());
        proof {
            assert(files@.subrange(max_log_files as int, i + 1) =~= files@.subrange(
                max_log_files as int,
                i as int,
            ).push(files@[i as int]));
        }
        i = i + 1;
    }
    proof {
        assert(files@.skip(max_log_files as int) =~= files@.subrange(
            max_log_files as int,
            files@.len() as int,
        ));
    }
    r
}

} // verus!
