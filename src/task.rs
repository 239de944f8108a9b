//! The decisions of one supervised download: the tool's command line, what
//! each line of its output means, and how its exit becomes an outcome.
//!
//! The caller runs the process and feeds its events to a [`DownloadRun`]; the
//! run answers each event with what to do next.

use vstd::prelude::*;
use crate::error::AppError;
use crate::progress::{ProgressData, progress_of, parse_progress};
use crate::text::{concat, contains_exec, contains_text, has_prefix, has_suffix, push_char, starts_with_text, ends_with_text};

verus! {

/// The file-name pattern the tool is asked to write: the title, cut to 200
/// bytes, and the extension.
pub const OUTPUT_PATTERN: &'static str = "%(title).200B.%(ext)s";

/// The tool's output template for files saved under the folder `save_path`:
/// the folder, a `/` unless it already ends in a separator (`/` is a
/// separator on every platform), and the file-name pattern.
pub open spec fn output_template_of(save_path: Seq<char>) -> Seq<char> {
    if has_suffix(save_path, "\\"@) || has_suffix(save_path, "/"@) {
        save_path + OUTPUT_PATTERN@
    } else {
        save_path + "/"@ + OUTPUT_PATTERN@
    }
}

/// The tool's output template for files saved under `save_path`.
pub fn output_template(save_path: &str) -> (r: String)
    ensures
        r@ == output_template_of(save_path@),
{
    if ends_with_text(save_path, "\\") || ends_with_text(save_path, "/") {
        concat(save_path, OUTPUT_PATTERN)
    } else {
        let dir = concat(save_path, "/");
        concat(dir.as_str(), OUTPUT_PATTERN)
    }
}

/// The tool's arguments for downloading `url` in format `format_id` to
/// `template`.
pub open spec fn download_args_of(
    format_id: Seq<char>,
    template: Seq<char>,
    url: Seq<char>,
) -> Seq<Seq<char>> {
    seq![
        "--format"@,
        format_id,
        "--output"@,
        template,
        "--no-part"@,
        "--force-overwrites"@,
        "--restrict-filenames"@,
        "--newline"@,
        "--no-playlist"@,
        url,
    ]
}

/// The views of a list of strings.
pub open spec fn views_of(v: Seq<String>) -> Seq<Seq<char>> {
    v.map_values(|s: String| s@)
}

/// The tool's arguments for downloading `url` in format `format_id` to
/// `template`: one progress line per update, no partial files, existing files
/// overwritten, plain file names, and no playlists.
pub fn download_args(format_id: &str, template: &str, url: &str) -> (r: Vec<String>)
    ensures
        views_of(r@) == download_args_of(format_id@, template@, url@),
{
    let mut v: Vec<String> = Vec::new();
    v.push("--format".to_owned());
    v.push(format_id.to_owned());
    v.push("--output".to_owned());
    v.push(template.to_owned());
    v.push("--no-part".to_owned());
    v.push("--force-overwrites".to_owned());
    v.push("--restrict-filenames".to_owned());
    v.push("--newline".to_owned());
    v.push("--no-playlist".to_owned());
    v.push(url.to_owned());
    assert(views_of(v@) =~= download_args_of(format_id@, template@, url@));
    v
}

/// The tool's arguments for reading the metadata of `url` as one document.
pub fn metadata_args(url: &str) -> (r: Vec<String>)
    ensures
        views_of(r@) == seq!["--dump-json"@, "--no-playlist"@, url@],
{
    let mut v: Vec<String> = Vec::new();
    v.push("--dump-json".to_owned());
    v.push("--no-playlist".to_owned());
    v.push(url.to_owned());
    assert(views_of(v@) =~= seq!["--dump-json"@, "--no-playlist"@, url@]);
    v
}

/// Whether the tool's diagnostics say that the site is not supported.
pub open spec fn reports_unsupported(diagnostics: Seq<char>) -> bool {
    contains_text(diagnostics, "Unsupported URL"@) || contains_text(diagnostics, "not supported"@)
}

/// Whether the tool's diagnostics say that the site is not supported.
pub fn is_unsupported_report(diagnostics: &str) -> (r: bool)
    ensures
        r == reports_unsupported(diagnostics@),
{
    contains_exec(diagnostics, "Unsupported URL") || contains_exec(diagnostics, "not supported")
}

/// Whether `url` is a web address (`http://` or `https://`).
pub open spec fn is_web_address(url: Seq<char>) -> bool {
    has_prefix(url, "http://"@) || has_prefix(url, "https://"@)
}

/// Accepts a web address; anything else is an `InvalidUrl`.
pub fn check_url(url: &str) -> (r: Result<(), AppError>)
    ensures
        is_web_address(url@) ==> r is Ok,
        !is_web_address(url@) ==> (r matches Err(AppError::InvalidUrl(u)) && u@ == url@),
{
    if starts_with_text(url, "http://") || starts_with_text(url, "https://") {
        Ok(())
    } else {
        Err(AppError::InvalidUrl(url.to_owned()))
    }
}

/// The error for a failed metadata request on `url`, from the tool's
/// diagnostics: an unsupported site when the diagnostics say so, else a tool
/// error carrying them.
pub fn metadata_failure(url: &str, diagnostics: &str) -> (r: AppError)
    ensures
        reports_unsupported(diagnostics@) ==> (r matches AppError::UnsupportedSite(u) && u@
            == url@),
        !reports_unsupported(diagnostics@) ==> (r matches AppError::YtdlpError(m) && m@
            == diagnostics@),
{
    if is_unsupported_report(diagnostics) {
        AppError::UnsupportedSite(url.to_owned())
    } else {
        AppError::YtdlpError(diagnostics.to_owned())
    }
}

/// The prefix of the message of a failed download.
pub const DOWNLOAD_FAILED: &'static str = "下载失败: ";

/// The outcome of a download of `url` to `save_path` whose process exited
/// (successfully or not) after writing `diagnostics` on its error stream.
pub open spec fn download_outcome(
    url: Seq<char>,
    save_path: Seq<char>,
    diagnostics: Seq<char>,
    success: bool,
) -> Result<Seq<char>, (bool, Seq<char>)> {
    if success {
        Ok(save_path)
    } else if reports_unsupported(diagnostics) {
        Err((true, url))
    } else {
        Err((false, DOWNLOAD_FAILED@ + diagnostics))
    }
}

/// Whether `r` is the outcome that [`download_outcome`] describes.
pub open spec fn is_outcome(
    r: Result<String, AppError>,
    o: Result<Seq<char>, (bool, Seq<char>)>,
) -> bool {
    match o {
        Ok(p) => r matches Ok(q) && q@ == p,
        Err((true, u)) => r matches Err(AppError::UnsupportedSite(x)) && x@ == u,
        Err((false, m)) => r matches Err(AppError::YtdlpError(x)) && x@ == m,
    }
}

/// What happened to a running download process.
pub enum RunEvent {
    /// A line on its standard output.
    Output(String),
    /// A line on its standard error.
    Diagnostic(String),
    /// It exited, successfully or not.
    Exited(bool),
}

/// What to do about an event.
pub enum RunAction {
    /// Hand this progress record to the task's event sink.
    Progress(ProgressData),
    /// Nothing.
    Nothing,
    /// The run is over with this outcome: the saved path, or the error.
    Finished(Result<String, AppError>),
}

/// The state of one download: its task, its target, and the diagnostics
/// gathered so far.
pub struct DownloadRun {
    task_id: String,
    url: String,
    save_path: String,
    diagnostics: String,
    finished: bool,
}

impl DownloadRun {
    pub closed spec fn task_id_view(&self) -> Seq<char> {
        self.task_id@
    }

    pub closed spec fn url_view(&self) -> Seq<char> {
        self.url@
    }

    pub closed spec fn save_path_view(&self) -> Seq<char> {
        self.save_path@
    }

    /// The error-stream lines so far, each followed by a newline.
    pub closed spec fn diagnostics_view(&self) -> Seq<char> {
        self.diagnostics@
    }

    /// Whether the process has exited.
    pub closed spec fn is_finished(&self) -> bool {
        self.finished
    }

    /// A run of task `task_id` downloading `url` to `save_path`.
    pub fn new(task_id: String, url: String, save_path: String) -> (r: DownloadRun)
        ensures
            r.task_id_view() == task_id@,
            r.url_view() == url@,
            r.save_path_view() == save_path@,
            r.diagnostics_view() == Seq::<char>::empty(),
            !r.is_finished(),
    {
        DownloadRun { task_id, url, save_path, diagnostics: String::new(), finished: false }
    }

    /// The identifier of the run's task.
    pub fn task_id(&self) -> (r: &str)
        ensures
            r@ == self.task_id_view(),
    {
        self.task_id.as_str()
    }

    /// Answers one event. Until the process exits, each output line that is a
    /// progress line becomes a progress record, and each error-stream line is
    /// kept. The exit ends the run: with the save path when the process
    /// succeeded, else with an error built from the kept lines. After the end,
    /// every event is ignored.
    pub fn step(&mut self, event: RunEvent) -> (r: RunAction)
        ensures
            final(self).task_id_view() == old(self).task_id_view(),
            final(self).url_view() == old(self).url_view(),
            final(self).save_path_view() == old(self).save_path_view(),
            old(self).is_finished() ==> (r is Nothing && *final(self) == *old(self)),
            !old(self).is_finished() ==> match event {
                RunEvent::Output(line) => {
                    &&& final(self).diagnostics_view() == old(self).diagnostics_view()
                    &&& !final(self).is_finished()
                    &&& match progress_of(old(self).task_id_view(), line@) {
                        Some(v) => r matches RunAction::Progress(p) && p@ == v,
                        None => r is Nothing,
                    }
                },
                RunEvent::Diagnostic(line) => {
                    &&& final(self).diagnostics_view() == old(self).diagnostics_view() + line@
                        + seq!['\n']
                    &&& !final(self).is_finished()
                    &&& r is Nothing
                },
                RunEvent::Exited(success) => {
                    &&& final(self).diagnostics_view() == old(self).diagnostics_view()
                    &&& final(self).is_finished()
                    &&& r matches RunAction::Finished(o) && is_outcome(
                        o,
                        download_outcome(
                            old(self).url_view(),
                            old(self).save_path_view(),
                            old(self).diagnostics_view(),
                            success,
                        ),
                    )
                },
            },
    {
        if self.finished {
            return RunAction::Nothing;
        }
        match event {
            RunEvent::Output(line) => match parse_progress(self.task_id.as_str(), line.as_str()) {
                Some(p) => RunAction::Progress(p),
                None => RunAction::Nothing,
            },
            RunEvent::Diagnostic(line) => {
                self.diagnostics.append(line.as_str());
                push_char(&mut self.diagnostics, '\n');
                RunAction::Nothing
            },
            RunEvent::Exited(success) => {
                self.finished = true;
                let outcome = if success {
                    Ok(self.save_path.clone())
                } else if is_unsupported_report(self.diagnostics.as_str()) {
                    Err(AppError::UnsupportedSite(self.url.clone()))
                } else {
                    Err(AppError::YtdlpError(concat(DOWNLOAD_FAILED, self.diagnostics.as_str())))
                };
                RunAction::Finished(outcome)
            },
        }
    }
}

/// The error for a process that could not be killed; `cause` says why.
pub fn kill_failed(cause: &str) -> (r: AppError)
    ensures
        r matches AppError::YtdlpError(m) && m@ == "终止进程失败: "@ + cause@,
{
    AppError::YtdlpError(concat("终止进程失败: ", cause))
}

/// The state of a download task.
#[derive(Debug, Clone, Copy, PartialEq, Eq, Structural)]
pub enum TaskStatus {
    Pending,
    Downloading,
    Completed,
    Failed,
    Cancelled,
}

/// A download task as the user interface tracks it.
#[derive(Debug)]
pub struct DownloadTask {
    pub id: String,
    pub url: String,
    pub title: String,
    pub format_id: String,
    pub save_path: String,
    pub status: TaskStatus,
    /// When the task was created, in seconds since the epoch.
    pub created_at: i64,
}

/// A request to start a download.
#[derive(Debug)]
pub struct DownloadVideoRequest {
    pub url: String,
    pub format_id: String,
    pub save_path: String,
    pub task_id: String,
}

} // verus!
