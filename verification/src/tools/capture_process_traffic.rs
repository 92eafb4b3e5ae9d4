//! Capturing the traffic of a program.

use vstd::prelude::*;
use crate::managed_dir::{below, path_below};
use crate::text::{concat, decimal, opt_text, texts, u64_to_string};
use crate::time_fmt::{compact_iso8601, compact_iso8601_utc};

verus! {

/// How long a capture goes on if nothing is said, in seconds.
pub const DEFAULT_DURATION_SECS: u64 = 30;

/// How long a capture may go on, in seconds.
pub const MAX_DURATION_SECS: u64 = 300;

/// How large the file may become if nothing is said: 10 MiB.
pub const DEFAULT_MAX_BYTES: u64 = 10 * 1024 * 1024;

/// How large the file may become at all: 100 MiB.
pub const MAX_ALLOWED_BYTES: u64 = 100 * 1024 * 1024;

/// Milliseconds between two looks at a capture.
pub const POLL_INTERVAL_MILLIS: u64 = 500;

/// What the tool is given.
#[derive(Debug)]
pub struct CaptureTrafficArgs {
    /// Path of the program.
    pub process_path: String,
    /// Path of the program that started it.
    pub parent_path: Option<String>,
    /// Whether the file is written in the pcap format; as hex digits otherwise.
    pub pcap_format: bool,
    /// How long the capture goes on, in seconds.
    pub max_duration_seconds: Option<u64>,
    /// How large the file may become.
    pub max_bytes: Option<u64>,
}

/// What the tool returns.
#[derive(Debug)]
pub struct CaptureTrafficResult {
    /// Path of the file.
    pub capture_path: String,
    /// `hex` or `pcap`.
    pub format: String,
    /// Size of the file.
    pub file_size_bytes: u64,
    /// How long the capture went on, in milliseconds.
    pub duration_millis: u64,
    /// Whether the capture ended because the file was large enough.
    pub size_cap_hit: bool,
}

/// A capture that is to be made.
#[derive(Debug)]
pub struct CapturePlan {
    /// Path of the file.
    pub capture_path: String,
    /// `hex` or `pcap`.
    pub format: String,
    /// Arguments of the command.
    pub command: Vec<String>,
    /// How long the capture goes on, in seconds.
    pub duration_secs: u64,
    /// How large the file may become.
    pub max_bytes: u64,
}

/// The time as it stands in the names of files.
pub fn timestamp_now(now_unix_secs: u64) -> (r: String)
    ensures
        r@ == compact_iso8601(now_unix_secs as nat),
{
    compact_iso8601_utc(now_unix_secs)
}

/// How long the capture is to go on.
pub open spec fn duration_of(args: CaptureTrafficArgs) -> u64 {
    match args.max_duration_seconds {
        Some(n) => n,
        None => DEFAULT_DURATION_SECS,
    }
}

/// How large the file may become.
pub open spec fn size_of(args: CaptureTrafficArgs) -> u64 {
    match args.max_bytes {
        Some(n) => n,
        None => DEFAULT_MAX_BYTES,
    }
}

/// What is wrong with what the tool is given, if anything is.
pub open spec fn args_defect(args: CaptureTrafficArgs) -> Option<Seq<char>> {
    if args.process_path@.len() == 0 {
        Some("process_path must not be empty"@)
    } else if duration_of(args) == 0 || duration_of(args) > MAX_DURATION_SECS {
        Some(
            "max_duration_seconds must be between 1 and "@ + decimal(MAX_DURATION_SECS as nat),
        )
    } else if size_of(args) == 0 || size_of(args) > MAX_ALLOWED_BYTES {
        Some(
            "max_bytes must be between 1 and "@ + decimal(MAX_ALLOWED_BYTES as nat)
                + " (100 MiB)"@,
        )
    } else {
        None
    }
}

/// What is wrong with what the tool is given, if anything is.
pub fn check_args(args: &CaptureTrafficArgs) -> (r: Option<String>)
    ensures
        opt_text(r) == args_defect(*args),
{
    if args.process_path.as_str().is_empty() {
        return Some("process_path must not be empty".to_owned());
    }
    let duration: u64 = match args.max_duration_seconds {
        Some(n) => n,
        None => DEFAULT_DURATION_SECS,
    };
    if duration == 0 || duration > MAX_DURATION_SECS {
        return Some(
            concat(
                "max_duration_seconds must be between 1 and ",
                u64_to_string(MAX_DURATION_SECS).as_str(),
            ),
        );
    }
    let max_bytes: u64 = match args.max_bytes {
        Some(n) => n,
        None => DEFAULT_MAX_BYTES,
    };
    if max_bytes == 0 || max_bytes > MAX_ALLOWED_BYTES {
        let mut out: String = concat(
            "max_bytes must be between 1 and ",
            u64_to_string(MAX_ALLOWED_BYTES).as_str(),
        );
        out.push_str(" (100 MiB)");
        return Some(out);
    }
    None
}

/// The format of the file, which is its extension too.
pub open spec fn format_of(args: CaptureTrafficArgs) -> Seq<char> {
    if args.pcap_format {
        "pcap"@
    } else {
        "hex"@
    }
}

/// The arguments of the command.
pub open spec fn command(args: CaptureTrafficArgs) -> Seq<Seq<char>> {
    seq!["capture-traffic"@] + (match args.parent_path {
        Some(p) => seq!["-v"@, p@],
        None => Seq::empty(),
    }) + (if args.pcap_format {
        seq!["-p"@]
    } else {
        Seq::empty()
    }) + seq![args.process_path@]
}

/// The arguments of the command.
pub fn command_args(args: &CaptureTrafficArgs) -> (r: Vec<String>)
    ensures
        texts(r@) == command(*args),
{
    let mut out: Vec<String> = Vec::new();
    out.push("capture-traffic".to_owned());
    if let Some(parent) = &args.parent_path {
        out.push("-v".to_owned());
        out.push(parent.clone());
    }
    if args.pcap_format {
        out.push("-p".to_owned());
    }
    out.push(args.process_path.clone());
    proof {
        assert(texts(out@) =~= command(*args));
    }
    out
}

/// Plans a capture. `captures_dir` is the path of the captures in the managed directory,
/// or why there is no managed directory, and `binary` says whether the program was found.
pub fn run(
    args: CaptureTrafficArgs,
    captures_dir: Result<String, String>,
    binary: Result<(), String>,
    now_unix_secs: u64,
) -> (r: Result<CapturePlan, String>)
    ensures
        match args_defect(args) {
            Some(e) => r is Err && r->Err_0@ == e,
            None => match captures_dir {
                Err(e) => r is Err && r->Err_0@ == "cannot bootstrap managed directory: "@ + e@,
                Ok(dir) => match binary {
                    Err(e) => r is Err && r->Err_0@ == "littlesnitch binary not found: "@ + e@,
                    Ok(_) => r is Ok && ({
                        let p = r->Ok_0;
                        &&& p.capture_path@ == below(
                            dir@,
                            compact_iso8601(now_unix_secs as nat) + "."@ + format_of(args),
                        )
                        &&& p.format@ == format_of(args)
                        &&& texts(p.command@) == command(args)
                        &&& p.duration_secs == duration_of(args)
                        &&& p.max_bytes == size_of(args)
                    }),
                },
            },
        },
{
    if let Some(e) = check_args(&args) {
        return Err(e);
    }
    let dir: String = match captures_dir {
        Ok(dir) => dir,
        Err(e) => {
            return Err(concat("cannot bootstrap managed directory: ", e.as_str()));
        },
    };
    match binary {
        Ok(()) => {},
        Err(e) => {
            return Err(concat("littlesnitch binary not found: ", e.as_str()));
        },
    }
    let format: String = if args.pcap_format {
        "pcap".to_owned()
    } else {
        "hex".to_owned()
    };
    let mut filename: String = timestamp_now(now_unix_secs);
    filename.push_str(".");
    filename.push_str(format.as_str());
    let capture_path: String = path_below(dir.as_str(), filename.as_str());
    let command: Vec<String> = command_args(&args);
    let duration_secs: u64 = match args.max_duration_seconds {
        Some(n) => n,
        None => DEFAULT_DURATION_SECS,
    };
    let max_bytes: u64 = match args.max_bytes {
        Some(n) => n,
        None => DEFAULT_MAX_BYTES,
    };
    Ok(CapturePlan { capture_path, format, command, duration_secs, max_bytes })
}

/// What a running capture does next.
#[derive(Debug, Clone, Copy, PartialEq, Eq, Structural)]
pub enum CaptureStep {
    /// It goes on.
    GoOn,
    /// It ends; the file is large enough or it is not.
    Stop { size_cap_hit: bool },
}

impl CapturePlan {
    /// What the capture does before a pause, `elapsed_millis` after it began: it ends
    /// when its time is over.
    pub fn before_pause(&self, elapsed_millis: u64) -> (r: CaptureStep)
        ensures
            r == if elapsed_millis >= self.duration_secs * 1000 {
                CaptureStep::Stop { size_cap_hit: false }
            } else {
                CaptureStep::GoOn
            },
    {
        if elapsed_millis / 1000 >= self.duration_secs {
            CaptureStep::Stop { size_cap_hit: false }
        } else {
            CaptureStep::GoOn
        }
    }

    /// What the capture does after a pause: it ends when the command is not running any
    /// more, or when the file, `size` bytes long, is large enough.
    pub fn after_pause(&self, running: bool, size: u64) -> (r: CaptureStep)
        ensures
            r == if !running {
                CaptureStep::Stop { size_cap_hit: false }
            } else if size >= self.max_bytes {
                CaptureStep::Stop { size_cap_hit: true }
            } else {
                CaptureStep::GoOn
            },
    {
        if !running {
            CaptureStep::Stop { size_cap_hit: false }
        } else if size >= self.max_bytes {
            CaptureStep::Stop { size_cap_hit: true }
        } else {
            CaptureStep::GoOn
        }
    }

    /// What a capture comes to that has ended.
    pub fn finish(self, file_size_bytes: u64, duration_millis: u64, size_cap_hit: bool) -> (r:
        CaptureTrafficResult)
        ensures
            r.capture_path@ == self.capture_path@,
            r.format@ == self.format@,
            r.file_size_bytes == file_size_bytes,
            r.duration_millis == duration_millis,
            r.size_cap_hit == size_cap_hit,
    {
        CaptureTrafficResult {
            capture_path: self.capture_path,
            format: self.format,
            file_size_bytes,
            duration_millis,
            size_cap_hit,
        }
    }
}

/// A capture that is not refused has a duration and a size within the limits.
pub proof fn law_captures_are_bounded(args: CaptureTrafficArgs)
    requires
        args_defect(args) is None,
    ensures
        1 <= duration_of(args) <= MAX_DURATION_SECS,
        1 <= size_of(args) <= MAX_ALLOWED_BYTES,
{
}

/// The command names the program last, the program that started it behind `-v` if there is
/// one, and asks for the pcap format with `-p` just if that is wanted.
pub proof fn law_command_says_what_is_captured(args: CaptureTrafficArgs)
    ensures
        ({
            let c = command(args);
            let with_parent: int = if args.parent_path is Some {
                2
            } else {
                0
            };
            &&& c[0] == "capture-traffic"@
            &&& c.last() == args.process_path@
            &&& args.parent_path matches Some(p) ==> c[1] == "-v"@ && c[2] == p@
            &&& args.pcap_format ==> c[1 + with_parent] == "-p"@ && c.len() == 3 + with_parent
            &&& !args.pcap_format ==> c.len() == 2 + with_parent
        }),
{
}

/// A capture is refused just if no program is named, or it would be too short, too long, too
/// small or too large; what is left out is taken from the defaults.
pub proof fn law_which_captures_are_refused(args: CaptureTrafficArgs)
    ensures
        args_defect(args) is None <==> {
            &&& args.process_path@.len() > 0
            &&& args.max_duration_seconds matches Some(n) ==> 1 <= n <= MAX_DURATION_SECS
            &&& args.max_bytes matches Some(n) ==> 1 <= n <= MAX_ALLOWED_BYTES
        },
        args.max_duration_seconds matches Some(n) ==> duration_of(args) == n,
        args.max_duration_seconds is None ==> duration_of(args) == DEFAULT_DURATION_SECS,
        args.max_bytes matches Some(n) ==> size_of(args) == n,
        args.max_bytes is None ==> size_of(args) == DEFAULT_MAX_BYTES,
        args.pcap_format ==> format_of(args) == "pcap"@,
        !args.pcap_format ==> format_of(args) == "hex"@,
{
}

} // verus!
