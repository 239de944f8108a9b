//! Errors of the library and the messages shown to users for them.

use vstd::prelude::*;
use crate::text::concat;

verus! {

/// What can go wrong.
#[derive(Debug, Clone, PartialEq, Eq)]
pub enum AppError {
    /// The download tool failed; the text says how.
    YtdlpError(String),
    /// The tool's metadata could not be understood.
    ParseError(String),
    /// A file operation failed.
    FileSystemError(String),
    /// A network request failed.
    NetworkError(String),
    /// The configuration is unusable.
    ConfigError(String),
    /// The address given is not a web address.
    InvalidUrl(String),
    /// The tool does not support the site of this address.
    UnsupportedSite(String),
    /// No running task has this identifier.
    TaskNotFound(String),
    /// A task with this identifier is already running.
    TaskAlreadyRunning(String),
    /// The location cannot be written.
    PermissionDenied(String),
    /// The disk is full.
    InsufficientSpace,
    /// The tool is missing or cannot be run.
    YtdlpNotFound,
    /// A document could not be encoded or decoded.
    JsonError(String),
}

/// The message shown to users for an error.
pub open spec fn message_of(e: AppError) -> Seq<char> {
    match e {
        AppError::YtdlpError(m) => "下载工具执行失败："@ + m@,
        AppError::ParseError(_) => "视频信息解析失败，请检查链接是否正确"@,
        AppError::FileSystemError(m) => "文件操作失败："@ + m@,
        AppError::NetworkError(_) => "网络连接失败，请检查网络设置"@,
        AppError::ConfigError(m) => "配置错误："@ + m@,
        AppError::InvalidUrl(_) => "无效的视频链接，请输入正确的 URL"@,
        AppError::UnsupportedSite(_) => "该网站暂不支持，yt-dlp 支持 1000+ 网站，请尝试其他链接"@,
        AppError::TaskNotFound(_) => "下载任务不存在"@,
        AppError::TaskAlreadyRunning(_) => "下载任务已在进行中"@,
        AppError::PermissionDenied(_) => "没有写入权限，请选择其他保存位置"@,
        AppError::InsufficientSpace => "磁盘空间不足，请清理磁盘后重试"@,
        AppError::YtdlpNotFound => "yt-dlp 未找到，请尝试更新或重新安装"@,
        AppError::JsonError(m) => "数据格式错误："@ + m@,
    }
}

/// The name of an error's kind.
pub open spec fn kind_of(e: AppError) -> Seq<char> {
    match e {
        AppError::YtdlpError(_) => "YtdlpError"@,
        AppError::ParseError(_) => "ParseError"@,
        AppError::FileSystemError(_) => "FileSystemError"@,
        AppError::NetworkError(_) => "NetworkError"@,
        AppError::ConfigError(_) => "ConfigError"@,
        AppError::InvalidUrl(_) => "InvalidUrl"@,
        AppError::UnsupportedSite(_) => "UnsupportedSite"@,
        AppError::TaskNotFound(_) => "TaskNotFound"@,
        AppError::TaskAlreadyRunning(_) => "TaskAlreadyRunning"@,
        AppError::PermissionDenied(_) => "PermissionDenied"@,
        AppError::InsufficientSpace => "InsufficientSpace"@,
        AppError::YtdlpNotFound => "YtdlpNotFound"@,
        AppError::JsonError(_) => "JsonError"@,
    }
}

impl AppError {
    /// The message shown to users for this error.
    pub fn user_message(&self) -> (r: String)
        ensures
            r@ == message_of(*self),
    {
        match self {
            AppError::YtdlpError(m) => concat("下载工具执行失败：", m.as_str()),
            AppError::ParseError(_) => "视频信息解析失败，请检查链接是否正确".to_owned(),
            AppError::FileSystemError(m) => concat("文件操作失败：", m.as_str()),
            AppError::NetworkError(_) => "网络连接失败，请检查网络设置".to_owned(),
            AppError::ConfigError(m) => concat("配置错误：", m.as_str()),
            AppError::InvalidUrl(_) => "无效的视频链接，请输入正确的 URL".to_owned(),
            AppError::UnsupportedSite(_) => "该网站暂不支持，yt-dlp 支持 1000+ 网站，请尝试其他链接".to_owned(),
            AppError::TaskNotFound(_) => "下载任务不存在".to_owned(),
            AppError::TaskAlreadyRunning(_) => "下载任务已在进行中".to_owned(),
            AppError::PermissionDenied(_) => "没有写入权限，请选择其他保存位置".to_owned(),
            AppError::InsufficientSpace => "磁盘空间不足，请清理磁盘后重试".to_owned(),
            AppError::YtdlpNotFound => "yt-dlp 未找到，请尝试更新或重新安装".to_owned(),
            AppError::JsonError(m) => concat("数据格式错误：", m.as_str()),
        }
    }

    /// The name of this error's kind (`"TaskNotFound"`).
    pub fn kind_name(&self) -> (r: String)
        ensures
            r@ == kind_of(*self),
    {
        match self {
            AppError::YtdlpError(_) => "YtdlpError".to_owned(),
            AppError::ParseError(_) => "ParseError".to_owned(),
            AppError::FileSystemError(_) => "FileSystemError".to_owned(),
            AppError::NetworkError(_) => "NetworkError".to_owned(),
            AppError::ConfigError(_) => "ConfigError".to_owned(),
            AppError::InvalidUrl(_) => "InvalidUrl".to_owned(),
            AppError::UnsupportedSite(_) => "UnsupportedSite".to_owned(),
            AppError::TaskNotFound(_) => "TaskNotFound".to_owned(),
            AppError::TaskAlreadyRunning(_) => "TaskAlreadyRunning".to_owned(),
            AppError::PermissionDenied(_) => "PermissionDenied".to_owned(),
            AppError::InsufficientSpace => "InsufficientSpace".to_owned(),
            AppError::YtdlpNotFound => "YtdlpNotFound".to_owned(),
            AppError::JsonError(_) => "JsonError".to_owned(),
        }
    }
}

/// An error as handed to the user interface: its kind and its message.
#[derive(Debug, Clone)]
pub struct ErrorResponse {
    pub error_type: String,
    pub message: String,
}

impl From<AppError> for ErrorResponse {
    fn from(error: AppError) -> (r: ErrorResponse)
        ensures
            r.error_type@ == kind_of(error),
            r.message@ == message_of(error),
    {
        ErrorResponse { error_type: error.kind_name(), message: error.user_message() }
    }
}

impl vstd::std_specs::convert::FromSpecImpl<AppError> for ErrorResponse {
    open spec fn obeys_from_spec() -> bool {
        false
    }

    open spec fn from_spec(v: AppError) -> ErrorResponse {
        arbitrary()
    }
}

} // verus!
