//! Updating the download tool: choosing the release asset for this platform,
//! deciding whether it is newer, and installing a downloaded copy.
//!
//! Installing keeps the current executable as a `.bak` sibling (only the last
//! one), then renames the staged file over the executable, and on POSIX
//! systems sets the executable bits again. When the backup fails, nothing
//! else is done: the executable is left as it was.

use vstd::prelude::*;
use crate::digits::{decimal, push_decimal};
use crate::error::AppError;
use crate::text::{concat, same_text, chars_of, string_of_range};
use crate::version::{is_newer, is_newer_exec};

verus! {

/// What a release offers: its version tag, its notes, and its files.
pub struct GithubRelease {
    pub tag_name: String,
    pub body: Option<String>,
    pub assets: Vec<GithubAsset>,
}

/// One downloadable file of a release.
pub struct GithubAsset {
    pub name: String,
    pub browser_download_url: String,
}

/// The operating system the application runs on.
#[derive(Debug, Clone, Copy, PartialEq, Eq, Structural)]
pub enum Platform {
    Windows,
    MacOs,
    Linux,
    Other,
}

/// The name of the release asset built for a platform.
pub open spec fn asset_name_for(p: Platform) -> Option<Seq<char>> {
    match p {
        Platform::Windows => Some("yt-dlp.exe"@),
        Platform::MacOs => Some("yt-dlp_macos"@),
        Platform::Linux => Some("yt-dlp"@),
        Platform::Other => None,
    }
}

/// What an update check found.
#[derive(Debug)]
pub struct UpdateInfo {
    pub current_version: String,
    pub latest_version: String,
    pub has_update: bool,
    pub download_url: String,
    pub release_notes: String,
}

/// The index of the first asset named `name`, if any.
pub open spec fn first_asset_named(assets: Seq<GithubAsset>, name: Seq<char>) -> Option<int> {
    if exists|i: int| 0 <= i < assets.len() && assets[i].name@ == name {
        Some(
            choose|i: int|
                0 <= i < assets.len() && assets[i].name@ == name && forall|j: int|
                    0 <= j < i ==> assets[j].name@ != name,
        )
    } else {
        None
    }
}

/// The path `p` with the extension of its last component replaced by `ext`
/// (or added, when it has none). A leading dot does not start an extension.
/// The last component is what follows the last `/` or `\`, on every
/// platform. Unlike `std::path::Path::with_extension`, a path that ends in a
/// separator is not first cut back to its last named component: its (empty)
/// last component gets the extension. The executable paths this is used on
/// name a file.
pub open spec fn with_extension_of(p: Seq<char>, ext: Seq<char>) -> Seq<char> {
    let d = extension_dot(p);
    if d >= 0 {
        p.take(d) + "."@ + ext
    } else {
        p + "."@ + ext
    }
}

/// The position of the dot that starts the extension of the last component
/// of `p`, or -1 when it has none.
pub open spec fn extension_dot(p: Seq<char>) -> int {
    dot_after(p, component_start(p), p.len() as int)
}

/// Where the last component of `p` starts: after its last separator.
pub open spec fn component_start(p: Seq<char>) -> int {
    last_separator_before(p, p.len() as int) + 1
}

/// The position of the last `/` or `\` before `end`, or -1.
pub open spec fn last_separator_before(p: Seq<char>, end: int) -> int
    decreases end,
{
    if end <= 0 {
        -1
    } else if p[end - 1] == '/' || p[end - 1] == '\\' {
        end - 1
    } else {
        last_separator_before(p, end - 1)
    }
}

/// The position of the last dot in `p[start + 1..end]`, or -1.
pub open spec fn dot_after(p: Seq<char>, start: int, end: int) -> int
    decreases end - start,
{
    if end <= start + 1 {
        -1
    } else if p[end - 1] == '.' {
        end - 1
    } else {
        dot_after(p, start, end - 1)
    }
}

pub(crate) fn extension_dot_exec(p: &Vec<char>) -> (d: Option<usize>)
    ensures
        match d {
            Some(k) => k as int == extension_dot(p@) && k < p@.len(),
            None => extension_dot(p@) == -1,
        },
{
    let n = p.len();
    let mut end: usize = n;
    while end > 0 && !(p[end - 1] == '/' || p[end - 1] == '\\')
        invariant
            end <= n == p@.len(),
            last_separator_before(p@, n as int) == last_separator_before(p@, end as int),
        decreases end,
    {
        end = end - 1;
    }
    let start = end;
    assert(component_start(p@) == start as int);
    let mut e: usize = n;
    while e - start > 1 && p[e - 1] != '.'
        invariant
            start <= e <= n == p@.len(),
            dot_after(p@, start as int, n as int) == dot_after(p@, start as int, e as int),
        decreases e,
    {
        e = e - 1;
    }
    if e - start > 1 {
        Some(e - 1)
    } else {
        None
    }
}

/// The path `path` with its extension replaced by `ext`.
pub fn with_extension(path: &str, ext: &str) -> (r: String)
    ensures
        r@ == with_extension_of(path@, ext@),
{
    let cs = chars_of(path);
    let base = match extension_dot_exec(&cs) {
        Some(k) => {
            assert(cs@.subrange(0, k as int) =~= path@.take(k as int));
            string_of_range(&cs, 0, k)
        },
        None => path.to_owned(),
    };
    let dotted = concat(base.as_str(), ".");
    let r = concat(dotted.as_str(), ext);
    proof {
        let d = extension_dot(path@);
        if d >= 0 {
            assert(base@ == path@.take(d));
        } else {
            assert(base@ == path@);
        }
    }
    r
}

/// The progress of an update download, as shown to the user.
pub struct UpdateProgress {
    /// Whole percent, up to 100.
    pub percent: u64,
    /// Bytes received so far (`"1024 bytes"`).
    pub downloaded: String,
    /// Bytes expected (`"2048 bytes"`; `"0 bytes"` when unknown).
    pub total: String,
}

/// The whole percentage of `total` that `done` is; a hundred once done
/// reaches total or when the total is unknown (zero).
pub open spec fn percent_of(done: nat, total: nat) -> nat {
    if total == 0 || done >= total {
        100
    } else {
        done * 100 / total
    }
}

/// The progress record for `done` of `total` bytes.
pub fn update_progress(done: u64, total: u64) -> (r: UpdateProgress)
    ensures
        r.percent == percent_of(done as nat, total as nat),
        r.downloaded@ == decimal(done as nat) + " bytes"@,
        r.total@ == decimal(total as nat) + " bytes"@,
{
    let percent = if total == 0 || done >= total {
        100
    } else {
        let q = (done as u128) * 100 / (total as u128);
        assert(q < 100) by (nonlinear_arith)
            requires
                q == (done as int) * 100 / (total as int),
                (done as int) < (total as int),
                0 < (total as int),
        ;
        q as u64
    };
    let mut downloaded = String::new();
    push_decimal(&mut downloaded, done);
    downloaded.append(" bytes");
    let mut whole = String::new();
    push_decimal(&mut whole, total);
    whole.append(" bytes");
    assert(downloaded@ =~= decimal(done as nat) + " bytes"@);
    assert(whole@ =~= decimal(total as nat) + " bytes"@);
    UpdateProgress { percent, downloaded, total: whole }
}

/// Updating of the download tool at one executable path.
pub struct UpdateService {
    ytdlp_path: String,
}

impl UpdateService {
    /// The path of the executable.
    pub closed spec fn path(&self) -> Seq<char> {
        self.ytdlp_path@
    }

    /// Updating of the tool at `ytdlp_path`.
    pub fn new(ytdlp_path: String) -> (r: UpdateService)
        ensures
            r.path() == ytdlp_path@,
    {
        UpdateService { ytdlp_path }
    }

    /// The path of the executable.
    pub fn ytdlp_path(&self) -> (r: &str)
        ensures
            r@ == self.path(),
    {
        self.ytdlp_path.as_str()
    }

    /// Starts replacing the executable with the file staged at `staged`:
    /// the returned installation asks for each file operation in turn.
    /// `posix` says whether execute permissions must be set again afterwards.
    pub fn replace_ytdlp(&self, staged: String, posix: bool) -> (r: (Installer, InstallOp))
        ensures
            r.0@ == install_start(
                self.path(),
                staged@,
                with_extension_of(self.path(), "bak"@),
                posix,
            ),
            r.1@ == install_pending(r.0@),
    {
        let m = Installer {
            phase: InstallPhase::Probing,
            executable: self.ytdlp_path.clone(),
            staged,
            backup: self.backup_path(),
            posix,
            result: Ok(()),
        };
        let op = m.pending_op();
        (m, op)
    }

    /// Whether `latest` is newer than `current`: both compared as text after
    /// dropping one leading non-digit marker (`v2024.01.15`).
    pub fn compare_versions(&self, current: &str, latest: &str) -> (r: bool)
        ensures
            r == is_newer(current@, latest@),
    {
        is_newer_exec(current, latest)
    }

    /// Where a downloaded update is staged: the executable's path with the
    /// extension `tmp`.
    pub fn staged_path(&self) -> (r: String)
        ensures
            r@ == with_extension_of(self.path(), "tmp"@),
    {
        with_extension(self.ytdlp_path.as_str(), "tmp")
    }

    /// Where the replaced executable is kept: its path with the extension `bak`.
    pub fn backup_path(&self) -> (r: String)
        ensures
            r@ == with_extension_of(self.path(), "bak"@),
    {
        with_extension(self.ytdlp_path.as_str(), "bak")
    }

    /// The download address of the asset of `release` built for `platform`:
    /// the first asset with exactly that name. A platform without a build, or a
    /// release without its asset, is a configuration error.
    pub fn get_download_url_for_platform(
        &self,
        release: &GithubRelease,
        platform: Platform,
    ) -> (r: Result<String, AppError>)
        ensures
            match asset_name_for(platform) {
                None => r matches Err(AppError::ConfigError(_)),
                Some(name) => match first_asset_named(release.assets@, name) {
                    Some(i) => r matches Ok(u) && u@ == release.assets@[i].browser_download_url@,
                    None => r matches Err(AppError::ConfigError(_)),
                },
            },
    {
        let name = match platform {
            Platform::Windows => "yt-dlp.exe",
            Platform::MacOs => "yt-dlp_macos",
            Platform::Linux => "yt-dlp",
            Platform::Other => {
                return Err(AppError::ConfigError("不支持的操作系统".to_owned()));
            },
        };
        let mut i: usize = 0;
        while i < release.assets.len()
            invariant
                asset_name_for(platform) == Some(name@),
                i <= release.assets@.len(),
                forall|j: int| 0 <= j < i ==> release.assets@[j].name@ != name@,
            decreases release.assets.len() - i,
        {
            if same_text(release.assets[i].name.as_str(), name) {
                let ghost k = first_asset_named(release.assets@, name@);
                proof {
                    assert(exists|j: int|
                        0 <= j < release.assets@.len() && release.assets@[j].name@ == name@) by {
                        assert(release.assets@[i as int].name@ == name@);
                    }
                    let c = k.unwrap();
                    if c != i as int {
                        assert(c < i || c > i);
                    }
                }
                return Ok(release.assets[i].browser_download_url.clone());
            }
            i = i + 1;
        }
        let mut msg = "未找到平台 ".to_owned();
        msg.append(name);
        msg.append(" 的下载文件");
        Err(AppError::ConfigError(msg))
    }

    /// What an update check found, from the installed version `current` and
    /// the latest `release`: whether it is newer, and where to get its asset
    /// for `platform`.
    pub fn update_info(
        &self,
        current: String,
        release: GithubRelease,
        platform: Platform,
    ) -> (r: Result<UpdateInfo, AppError>)
        ensures
            match asset_name_for(platform) {
                Some(name) if first_asset_named(release.assets@, name) is Some => r matches Ok(
                    info,
                ) && info.current_version@ == current@ && info.latest_version@
                    == release.tag_name@ && info.has_update == is_newer(
                    current@,
                    release.tag_name@,
                ) && info.download_url@ == release.assets@[first_asset_named(
                    release.assets@,
                    name,
                ).unwrap()].browser_download_url@ && info.release_notes@ == match release.body {
                    Some(b) => b@,
                    None => Seq::<char>::empty(),
                },
                _ => r matches Err(AppError::ConfigError(_)),
            },
    {
        let has_update = self.compare_versions(current.as_str(), release.tag_name.as_str());
        let download_url = match self.get_download_url_for_platform(&release, platform) {
            Ok(u) => u,
            Err(e) => return Err(e),
        };
        let release_notes = match release.body {
            Some(b) => b,
            None => String::new(),
        };
        Ok(
            UpdateInfo {
                current_version: current,
                latest_version: release.tag_name,
                has_update,
                download_url,
                release_notes,
            },
        )
    }
}

/// The stage of an installation.
#[derive(Clone, Copy, PartialEq, Eq, Structural, Debug)]
pub enum InstallPhase {
    Probing,
    BackingUp,
    Swapping,
    Permitting,
    Over,
}

/// The file operation an installation asks for next.
pub enum InstallOp {
    /// Report whether this path exists.
    CheckExists(String),
    /// Copy the first path to the second, replacing what is there.
    Copy(String, String),
    /// Rename the first path to the second, replacing what is there.
    Rename(String, String),
    /// Make this file executable by everyone (mode 755).
    MakeExecutable(String),
    /// The installation is over.
    Done(Result<(), AppError>),
}

/// The caller's report of the last file operation.
pub enum InstallReply {
    Exists(bool),
    Copied(Result<(), String>),
    Renamed(Result<(), String>),
    Permitted(Result<(), String>),
}

/// An installation of a staged file over the executable.
pub struct Installer {
    phase: InstallPhase,
    executable: String,
    staged: String,
    backup: String,
    posix: bool,
    result: Result<(), String>,
}

/// An [`InstallOp`] as character sequences; a failure by its cause.
pub enum InstallOpView {
    CheckExists(Seq<char>),
    Copy(Seq<char>, Seq<char>),
    Rename(Seq<char>, Seq<char>),
    MakeExecutable(Seq<char>),
    Done(Result<(), Seq<char>>),
}

impl View for InstallOp {
    type V = InstallOpView;

    open spec fn view(&self) -> InstallOpView {
        match self {
            InstallOp::CheckExists(p) => InstallOpView::CheckExists(p@),
            InstallOp::Copy(a, b) => InstallOpView::Copy(a@, b@),
            InstallOp::Rename(a, b) => InstallOpView::Rename(a@, b@),
            InstallOp::MakeExecutable(p) => InstallOpView::MakeExecutable(p@),
            InstallOp::Done(Ok(())) => InstallOpView::Done(Ok(())),
            InstallOp::Done(Err(AppError::FileSystemError(m))) => InstallOpView::Done(Err(m@)),
            InstallOp::Done(Err(_)) => InstallOpView::Done(Err(Seq::empty())),
        }
    }
}

/// A [`InstallReply`] as character sequences.
pub enum InstallReplyView {
    Exists(bool),
    Copied(Result<(), Seq<char>>),
    Renamed(Result<(), Seq<char>>),
    Permitted(Result<(), Seq<char>>),
}

impl View for InstallReply {
    type V = InstallReplyView;

    open spec fn view(&self) -> InstallReplyView {
        match self {
            InstallReply::Exists(b) => InstallReplyView::Exists(*b),
            InstallReply::Copied(Ok(())) => InstallReplyView::Copied(Ok(())),
            InstallReply::Copied(Err(m)) => InstallReplyView::Copied(Err(m@)),
            InstallReply::Renamed(Ok(())) => InstallReplyView::Renamed(Ok(())),
            InstallReply::Renamed(Err(m)) => InstallReplyView::Renamed(Err(m@)),
            InstallReply::Permitted(Ok(())) => InstallReplyView::Permitted(Ok(())),
            InstallReply::Permitted(Err(m)) => InstallReplyView::Permitted(Err(m@)),
        }
    }
}

/// The state of an installation.
pub struct InstallState {
    pub phase: InstallPhase,
    pub executable: Seq<char>,
    pub staged: Seq<char>,
    pub backup: Seq<char>,
    pub posix: bool,
    pub result: Result<(), Seq<char>>,
}

/// The operation that an installation state waits on.
pub open spec fn install_pending(s: InstallState) -> InstallOpView {
    match s.phase {
        InstallPhase::Probing => InstallOpView::CheckExists(s.executable),
        InstallPhase::BackingUp => InstallOpView::Copy(s.executable, s.backup),
        InstallPhase::Swapping => InstallOpView::Rename(s.staged, s.executable),
        InstallPhase::Permitting => InstallOpView::MakeExecutable(s.executable),
        InstallPhase::Over => InstallOpView::Done(s.result),
    }
}

/// `s` ended with `result`.
pub open spec fn install_over(s: InstallState, result: Result<(), Seq<char>>) -> InstallState {
    InstallState { phase: InstallPhase::Over, result, ..s }
}

/// The next installation state and operation after reply `r`. A reply that
/// does not answer the pending operation leaves the state as it is.
pub open spec fn install_next(s: InstallState, r: InstallReplyView) -> (InstallState, InstallOpView) {
    let moved = match (s.phase, r) {
        (InstallPhase::Probing, InstallReplyView::Exists(true)) => Some(
            InstallState { phase: InstallPhase::BackingUp, ..s },
        ),
        (InstallPhase::Probing, InstallReplyView::Exists(false)) => Some(
            InstallState { phase: InstallPhase::Swapping, ..s },
        ),
        (InstallPhase::BackingUp, InstallReplyView::Copied(Ok(()))) => Some(
            InstallState { phase: InstallPhase::Swapping, ..s },
        ),
        (InstallPhase::BackingUp, InstallReplyView::Copied(Err(m))) => Some(
            install_over(s, Err(m)),
        ),
        (InstallPhase::Swapping, InstallReplyView::Renamed(Ok(()))) => Some(
            if s.posix {
                InstallState { phase: InstallPhase::Permitting, ..s }
            } else {
                install_over(s, Ok(()))
            },
        ),
        (InstallPhase::Swapping, InstallReplyView::Renamed(Err(m))) => Some(
            install_over(s, Err(m)),
        ),
        (InstallPhase::Permitting, InstallReplyView::Permitted(Ok(()))) => Some(
            install_over(s, Ok(())),
        ),
        (InstallPhase::Permitting, InstallReplyView::Permitted(Err(m))) => Some(
            install_over(s, Err(m)),
        ),
        _ => None,
    };
    match moved {
        Some(t) => (t, install_pending(t)),
        None => (s, install_pending(s)),
    }
}

/// The state that starts installing `staged` over `executable`, keeping the
/// old one at `backup`.
pub open spec fn install_start(
    executable: Seq<char>,
    staged: Seq<char>,
    backup: Seq<char>,
    posix: bool,
) -> InstallState {
    InstallState {
        phase: InstallPhase::Probing,
        executable,
        staged,
        backup,
        posix,
        result: Ok(()),
    }
}

impl View for Installer {
    type V = InstallState;

    closed spec fn view(&self) -> InstallState {
        InstallState {
            phase: self.phase,
            executable: self.executable@,
            staged: self.staged@,
            backup: self.backup@,
            posix: self.posix,
            result: match self.result {
                Ok(()) => Ok(()),
                Err(m) => Err(m@),
            },
        }
    }
}

impl Installer {
    fn pending_op(&self) -> (op: InstallOp)
        ensures
            op@ == install_pending(self@),
    {
        match self.phase {
            InstallPhase::Probing => InstallOp::CheckExists(self.executable.clone()),
            InstallPhase::BackingUp => InstallOp::Copy(self.executable.clone(), self.backup.clone()),
            InstallPhase::Swapping => InstallOp::Rename(self.staged.clone(), self.executable.clone()),
            InstallPhase::Permitting => InstallOp::MakeExecutable(self.executable.clone()),
            InstallPhase::Over => InstallOp::Done(
                match &self.result {
                    Ok(()) => Ok(()),
                    Err(m) => Err(AppError::FileSystemError(m.clone())),
                },
            ),
        }
    }

    /// Takes the report of the last operation and returns the next one.
    pub fn step(&mut self, reply: InstallReply) -> (op: InstallOp)
        ensures
            (final(self)@, op@) == install_next(old(self)@, reply@),
    {
        match (self.phase, reply) {
            (InstallPhase::Probing, InstallReply::Exists(true)) => {
                self.phase = InstallPhase::BackingUp;
            },
            (InstallPhase::Probing, InstallReply::Exists(false)) => {
                self.phase = InstallPhase::Swapping;
            },
            (InstallPhase::BackingUp, InstallReply::Copied(Ok(()))) => {
                self.phase = InstallPhase::Swapping;
            },
            (InstallPhase::BackingUp, InstallReply::Copied(Err(m))) => {
                self.phase = InstallPhase::Over;
                self.result = Err(m);
            },
            (InstallPhase::Swapping, InstallReply::Renamed(Ok(()))) => {
                if self.posix {
                    self.phase = InstallPhase::Permitting;
                } else {
                    self.phase = InstallPhase::Over;
                    self.result = Ok(());
                }
            },
            (InstallPhase::Swapping, InstallReply::Renamed(Err(m))) => {
                self.phase = InstallPhase::Over;
                self.result = Err(m);
            },
            (InstallPhase::Permitting, InstallReply::Permitted(Ok(()))) => {
                self.phase = InstallPhase::Over;
                self.result = Ok(());
            },
            (InstallPhase::Permitting, InstallReply::Permitted(Err(m))) => {
                self.phase = InstallPhase::Over;
                self.result = Err(m);
            },
            _ => {},
        }
        self.pending_op()
    }
}

/// When backing up the existing executable fails, the installation ends
/// with that failure at once: it never renames the staged file, never
/// touches the executable's permissions, and asks for nothing more whatever
/// it is told. The only operations before are the existence check and the
/// copy, which reads the executable and writes only the backup.
pub proof fn lemma_failed_backup_leaves_executable(
    executable: Seq<char>,
    staged: Seq<char>,
    backup: Seq<char>,
    posix: bool,
    cause: Seq<char>,
)
    ensures
        ({
            let s0 = install_start(executable, staged, backup, posix);
            let (s1, op1) = install_next(s0, InstallReplyView::Exists(true));
            let (s2, op2) = install_next(s1, InstallReplyView::Copied(Err(cause)));
            &&& install_pending(s0) == InstallOpView::CheckExists(executable)
            &&& op1 == InstallOpView::Copy(executable, backup)
            &&& op2 == InstallOpView::Done(Err(cause))
            &&& forall|r: InstallReplyView| #[trigger] install_next(s2, r) == (s2, op2)
        }),
{
}

} // verus!
