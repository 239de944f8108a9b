//! Supervision of an external media download tool: progress-line parsing,
//! the registry of running download tasks, crash-safe document storage,
//! and the self-update protocol for the tool's executable.

pub mod text;
pub mod digits;
pub mod version;
pub mod error;
pub mod progress;
pub mod registry;
pub mod task;
pub mod store;
pub mod paths;
pub mod config;
pub mod history;
pub mod update;
pub mod media;
pub mod files;

pub use config::{AppConfig, BrowserType, ConfigService};
pub use error::{AppError, ErrorResponse};
pub use files::resolve_filename_conflict;
pub use history::{HistoryItem, HistoryService};
pub use media::{Format, RawFormat, RawVideo, VideoInfo, YtdlpService};
pub use progress::{parse_progress, ProgressData};
pub use registry::{TaskNotice, TaskRegistry};
pub use store::{StoreMachine, StoreOp, StorePaths, StoreReply};
pub use task::{DownloadRun, DownloadTask, DownloadVideoRequest, RunAction, RunEvent, TaskStatus};
pub use update::{GithubAsset, GithubRelease, Installer, InstallOp, InstallReply, Platform, UpdateInfo, UpdateService};
