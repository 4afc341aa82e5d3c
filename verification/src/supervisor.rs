//! Per-item supervision decisions. The external process itself is spawned
//! and awaited by the surrounding binary; everything that is decided about
//! it — which progress update a status line yields, what each stream event
//! leads to, how an exit status maps to an outcome, and how cancellation
//! preempts that mapping — is verified here.

use vstd::prelude::*;

use crate::disposition::{detect_filename, detect_post, opt_sslice_view};
use crate::invocation::{build_aria2c_args, invocation_spec, Cli};
use crate::progress::{parse_aria2_progress, progress_spec};
use crate::text::{i32_to_string, int_rep};

verus! {

/// One download in flight: its URL, and the resolved name and full path,
/// both empty until resolution completes.
pub struct DownloadItem {
    pub url: String,
    pub filename: String,
    pub file_path: String,
}

/// The output path for `name` under `dir`, with exactly one separator
/// between them.
pub open spec fn join_path(dir: Seq<char>, name: Seq<char>) -> Seq<char> {
    if dir.len() == 0 {
        name
    } else if dir.last() == '/' {
        dir + name
    } else {
        dir + "/"@ + name
    }
}

fn join_to_path(dir: &str, name: &str) -> (r: String)
    ensures
        r@ == join_path(dir@, name@),
{
    let n = dir.unicode_len();
    if n == 0 {
        return String::from_str(name);
    }
    if dir.get_char(n - 1) == '/' {
        String::from_str(dir).concat(name)
    } else {
        let r = String::from_str(dir).concat("/").concat(name);
        proof {
            assert(r@ =~= dir@ + "/"@ + name@);
        }
        r
    }
}

impl DownloadItem {
    /// A fresh, unresolved item for one URL.
    pub fn new(url: String) -> (r: Self)
        ensures
            r.url@ == url@,
            r.filename@ == Seq::<char>::empty(),
            r.file_path@ == Seq::<char>::empty(),
    {
        DownloadItem { url, filename: String::new(), file_path: String::new() }
    }

    /// Record the resolved filename and the full output path; the URL is
    /// untouched.
    pub fn set_resolved(&mut self, filename: String, target_dir: &str)
        ensures
            final(self).url == old(self).url,
            final(self).filename@ == filename@,
            final(self).file_path@ == join_path(target_dir@, filename@),
    {
        self.file_path = join_to_path(target_dir, filename.as_str());
        self.filename = filename;
    }
}

/// The resolution and invocation phase of one item's supervision: resolve
/// the output filename from the optional content-disposition header or the
/// URL, record it with the full output path on the item, and build the
/// external invocation for it.
pub fn prepare_invocation(
    item: &mut DownloadItem,
    content_disposition: Option<&str>,
    target_dir: &str,
    config: &Cli,
) -> (r: Vec<String>)
    ensures
        final(item).url == old(item).url,
        detect_post(old(item).url@, opt_sslice_view(content_disposition), final(item).filename@),
        final(item).file_path@ == join_path(target_dir@, final(item).filename@),
        r@.len() == invocation_spec(
            target_dir@,
            final(item).filename@,
            old(item).url@,
            *config,
        ).len(),
        forall|i: int|
            0 <= i < r@.len() ==> r@[i]@ == invocation_spec(
                target_dir@,
                final(item).filename@,
                old(item).url@,
                *config,
            )[i],
{
    let filename = detect_filename(item.url.as_str(), content_disposition);
    let args = build_aria2c_args(target_dir, filename.as_str(), item.url.as_str(), config);
    item.set_resolved(filename, target_dir);
    args
}

/// Why one item did not complete.
#[derive(Debug, PartialEq, Eq, Structural)]
pub enum DownloadError {
    SpawnFailed,
    FileNotFound,
    DiskSpace,
    NetworkTimeout,
    ExitCode(i32),
    Signal,
    Cancelled,
}

/// The outcome owed to each exit status of the external process: 0 is
/// success, 3 names a missing or unreadable file, 9 exhausted disk space,
/// 28 a network timeout, any other code a generic failure carrying the
/// code, and an exit without a code a termination by signal.
pub open spec fn exit_outcome(code: Option<i32>) -> Result<(), DownloadError> {
    match code {
        Some(c) => if c == 0 {
            Ok(())
        } else if c == 3 {
            Err(DownloadError::FileNotFound)
        } else if c == 9 {
            Err(DownloadError::DiskSpace)
        } else if c == 28 {
            Err(DownloadError::NetworkTimeout)
        } else {
            Err(DownloadError::ExitCode(c))
        },
        None => Err(DownloadError::Signal),
    }
}

/// Map an exit status to the item's outcome.
pub fn map_exit_code(code: Option<i32>) -> (r: Result<(), DownloadError>)
    ensures
        r == exit_outcome(code),
{
    match code {
        Some(c) => {
            if c == 0 {
                Ok(())
            } else if c == 3 {
                Err(DownloadError::FileNotFound)
            } else if c == 9 {
                Err(DownloadError::DiskSpace)
            } else if c == 28 {
                Err(DownloadError::NetworkTimeout)
            } else {
                Err(DownloadError::ExitCode(c))
            }
        }
        None => Err(DownloadError::Signal),
    }
}

/// The item's terminal outcome. A cancellation observed while the process
/// ran takes priority over whatever the exit status says.
pub fn finalize_outcome(cancelled: bool, code: Option<i32>) -> (r: Result<(), DownloadError>)
    ensures
        cancelled ==> r == Err::<(), DownloadError>(DownloadError::Cancelled),
        !cancelled ==> r == exit_outcome(code),
{
    if cancelled {
        Err(DownloadError::Cancelled)
    } else {
        map_exit_code(code)
    }
}

impl DownloadError {
    /// A human-readable reason for the failure.
    pub fn message(&self) -> (r: String)
        ensures
            r@ == error_message_spec(*self),
    {
        match self {
            DownloadError::SpawnFailed => String::from_str("Failed to spawn aria2c"),
            DownloadError::FileNotFound => String::from_str("file not found or access denied"),
            DownloadError::DiskSpace => String::from_str("not enough disk space available"),
            DownloadError::NetworkTimeout => String::from_str(
                "network timeout or connection refused",
            ),
            DownloadError::ExitCode(c) => String::from_str("aria2c failed with exit code ").concat(
                i32_to_string(*c).as_str(),
            ),
            DownloadError::Signal => String::from_str("aria2c terminated by signal"),
            DownloadError::Cancelled => String::from_str("cancelled"),
        }
    }
}

pub open spec fn error_message_spec(e: DownloadError) -> Seq<char> {
    match e {
        DownloadError::SpawnFailed => "Failed to spawn aria2c"@,
        DownloadError::FileNotFound => "file not found or access denied"@,
        DownloadError::DiskSpace => "not enough disk space available"@,
        DownloadError::NetworkTimeout => "network timeout or connection refused"@,
        DownloadError::ExitCode(c) => "aria2c failed with exit code "@ + int_rep(c as int),
        DownloadError::Signal => "aria2c terminated by signal"@,
        DownloadError::Cancelled => "cancelled"@,
    }
}

/// What the supervisor observes while the process runs.
pub enum StreamEvent {
    Line(String),
    Eof,
    CancelRequested,
}

/// What the supervisor does next.
#[derive(Clone, Copy, Debug, PartialEq, Eq, Structural)]
pub enum StreamAction {
    Progress(u64, u64),
    Ignore,
    Reap,
    TerminateGroup,
}

/// One decision step of the supervision loop: a status line either updates
/// the progress pair or is ignored; the end of the stream leads to reaping
/// the process; a cancellation request leads to terminating the whole
/// process group.
pub fn supervisor_step(ev: &StreamEvent) -> (a: StreamAction)
    ensures
        ev matches StreamEvent::Line(l) ==> a == (match progress_spec(l@) {
            Some(p) => StreamAction::Progress(p.0, p.1),
            None => StreamAction::Ignore,
        }),
        ev is Eof ==> a == StreamAction::Reap,
        ev is CancelRequested ==> a == StreamAction::TerminateGroup,
{
    match ev {
        StreamEvent::Line(l) => match parse_aria2_progress(l.as_str()) {
            Some(p) => StreamAction::Progress(p.0, p.1),
            None => StreamAction::Ignore,
        },
        StreamEvent::Eof => StreamAction::Reap,
        StreamEvent::CancelRequested => StreamAction::TerminateGroup,
    }
}

} // verus!
