use std::collections::HashMap;
use youtube_downloader::config::{AppConfig, BrowserType, ConfigService};
use youtube_downloader::history::{refresh_existence, HistoryItem, HistoryService, EMPTY_HISTORY};
use youtube_downloader::store::{Loaded, StoreError, StoreMachine, StoreOp, StoreReply};
use youtube_downloader::update::{InstallOp, InstallReply, UpdateService};

/// Files kept in memory, answering the store's requests.
struct MemFiles {
    files: HashMap<String, String>,
    fail_renames_to: Option<String>,
}

impl MemFiles {
    fn new() -> MemFiles {
        MemFiles { files: HashMap::new(), fail_renames_to: None }
    }

    /// Runs a store operation to its end; returns its result and the text
    /// that decoded, if any.
    fn run(&mut self, started: (StoreMachine, StoreOp), decodes: &dyn Fn(&str) -> bool) -> (Result<Loaded, StoreError>, Option<String>) {
        let (mut machine, mut op) = started;
        let mut decoded = None;
        loop {
            let reply = match op {
                StoreOp::CheckExists(p) => StoreReply::Exists(self.files.contains_key(&p)),
                StoreOp::Read(p) => StoreReply::Text(self.files.get(&p).cloned()),
                StoreOp::Decode(t) => {
                    let ok = decodes(&t);
                    if ok {
                        decoded = Some(t);
                    }
                    StoreReply::Decoded(ok)
                }
                StoreOp::Write(p, t) => {
                    self.files.insert(p, t);
                    StoreReply::Wrote(Ok(()))
                }
                StoreOp::Rename(a, b) => {
                    if self.fail_renames_to.as_deref() == Some(b.as_str()) {
                        StoreReply::Renamed(Err("denied".to_string()))
                    } else {
                        match self.files.remove(&a) {
                            Some(t) => {
                                self.files.insert(b, t);
                                StoreReply::Renamed(Ok(()))
                            }
                            None => StoreReply::Renamed(Err("missing".to_string())),
                        }
                    }
                }
                StoreOp::Remove(p) => {
                    self.files.remove(&p);
                    StoreReply::Removed
                }
                StoreOp::Done(r) => return (r, decoded),
            };
            op = machine.step(reply);
        }
    }
}

fn encode_config(c: &AppConfig) -> String {
    let mut m = serde_json::Map::new();
    m.insert("savePath".to_string(), serde_json::Value::String(c.save_path.clone()));
    m.insert("defaultResolution".to_string(), serde_json::Value::String(c.default_resolution.clone()));
    m.insert("autoCheckUpdate".to_string(), serde_json::Value::Bool(c.auto_check_update));
    m.insert("concurrentDownloads".to_string(), serde_json::Value::from(c.concurrent_downloads));
    serde_json::to_string_pretty(&serde_json::Value::Object(m)).unwrap()
}

fn decode_config(text: &str) -> Option<AppConfig> {
    let v: serde_json::Value = serde_json::from_str(text).ok()?;
    Some(AppConfig {
        save_path: v.get("savePath")?.as_str()?.to_string(),
        default_resolution: v.get("defaultResolution")?.as_str()?.to_string(),
        auto_check_update: v.get("autoCheckUpdate")?.as_bool()?,
        concurrent_downloads: v.get("concurrentDownloads")?.as_u64()? as u32,
        youtube_cookie_browser: BrowserType::NoBrowser,
    })
}

fn decodes_config(text: &str) -> bool {
    decode_config(text).is_some()
}

fn config_dir() -> (tempfile::TempDir, String) {
    let temp_dir = tempfile::TempDir::new().unwrap();
    let dir = temp_dir.path().to_str().unwrap().to_string();
    (temp_dir, dir)
}

#[test]
fn test_config_service_new() {
    let (temp_dir, dir) = config_dir();
    let service = ConfigService::new(&dir);
    assert!(std::path::Path::new(service.config_path()).exists() == false);
    assert_eq!(service.config_path(), temp_dir.path().join("config.json").to_str().unwrap());
}

#[test]
fn test_load_creates_default_config() {
    let (_t, dir) = config_dir();
    let service = ConfigService::new(&dir);
    let mut fs = MemFiles::new();
    let default_config = AppConfig::with_save_path("/downloads".to_string());
    let (result, _) = fs.run(service.load(encode_config(&default_config)), &decodes_config);
    assert_eq!(result.unwrap(), Loaded::Fresh);
    let config = default_config;
    assert_eq!(config.default_resolution, "1080p");
    assert_eq!(config.concurrent_downloads, 3);
    assert!(fs.files.contains_key(service.config_path()));
}

#[test]
fn test_app_config_default() {
    let config = AppConfig::with_save_path("/downloads".to_string());
    assert_eq!(config.default_resolution, "1080p");
    assert!(config.auto_check_update);
    assert_eq!(config.concurrent_downloads, 3);
}

fn custom(path: &str, resolution: &str, auto: bool, n: u32) -> AppConfig {
    AppConfig {
        save_path: path.to_string(),
        default_resolution: resolution.to_string(),
        auto_check_update: auto,
        concurrent_downloads: n,
        youtube_cookie_browser: BrowserType::NoBrowser,
    }
}

#[test]
fn test_save_and_load_roundtrip() {
    let (_t, dir) = config_dir();
    let service = ConfigService::new(&dir);
    let mut fs = MemFiles::new();
    let custom_config = custom("/custom/path", "720p", false, 5);
    let (saved, _) = fs.run(service.save(encode_config(&custom_config)), &decodes_config);
    assert_eq!(saved.unwrap(), Loaded::Saved);
    let default_text = encode_config(&AppConfig::with_save_path("/d".to_string()));
    let (loaded, text) = fs.run(service.load(default_text), &decodes_config);
    assert_eq!(loaded.unwrap(), Loaded::Stored);
    let loaded_config = decode_config(&text.unwrap()).unwrap();
    assert_eq!(loaded_config, custom_config);
}

#[test]
fn test_recover_from_corrupted_config() {
    let (_t, dir) = config_dir();
    let service = ConfigService::new(&dir);
    let mut fs = MemFiles::new();
    fs.files.insert(service.config_path().to_string(), "{ invalid json }".to_string());
    let default_text = encode_config(&AppConfig::with_save_path("/downloads".to_string()));
    let (result, _) = fs.run(service.load(default_text.clone()), &decodes_config);
    assert_eq!(result.unwrap(), Loaded::Fresh);
    let config = decode_config(&fs.files[service.config_path()]).unwrap();
    assert_eq!(config.default_resolution, "1080p");
    let backup_path = std::path::Path::new(service.config_path()).with_extension("json.backup");
    let backup = backup_path.to_str().unwrap();
    assert!(fs.files.contains_key(backup));
    assert_eq!(fs.files[backup], "{ invalid json }");
}

#[test]
fn config_service_test_atomic_write() {
    let (_t, dir) = config_dir();
    let service = ConfigService::new(&dir);
    let mut fs = MemFiles::new();
    let config1 = custom("/path1", "1080p", true, 3);
    let config2 = custom("/path2", "720p", false, 5);
    fs.run(service.save(encode_config(&config1)), &decodes_config).0.unwrap();
    fs.run(service.save(encode_config(&config2)), &decodes_config).0.unwrap();
    let (_, text) = fs.run(service.load(encode_config(&config1)), &decodes_config);
    assert_eq!(decode_config(&text.unwrap()).unwrap(), config2);
    let temp_path = std::path::Path::new(service.config_path()).with_extension("json.tmp");
    assert!(!fs.files.contains_key(temp_path.to_str().unwrap()));
}

#[test]
fn failed_commit_removes_the_temporary_file_and_keeps_the_document() {
    let service = ConfigService::new("/cfg");
    let mut fs = MemFiles::new();
    fs.files.insert("/cfg/config.json".to_string(), "old".to_string());
    fs.fail_renames_to = Some("/cfg/config.json".to_string());
    let (result, _) = fs.run(service.save("new".to_string()), &decodes_config);
    let err = result.unwrap_err();
    assert!(err.at_commit);
    assert_eq!(fs.files["/cfg/config.json"], "old");
    assert!(!fs.files.contains_key("/cfg/config.json.tmp"));
    match err.to_app_error(youtube_downloader::store::DocumentKind::Config) {
        youtube_downloader::AppError::ConfigError(m) => assert!(m.ends_with("denied")),
        _ => panic!("expected a configuration error"),
    }
}

fn item(id: &str, title: &str, file_path: &str) -> HistoryItem {
    HistoryItem {
        id: id.to_string(),
        title: title.to_string(),
        url: format!("https://youtube.com/watch?v={}", id),
        resolution: "1080p".to_string(),
        file_path: file_path.to_string(),
        file_size: 1024000,
        downloaded_at: 1234567890,
        file_exists: true,
    }
}

/// Histories are encoded as their item identifiers, one per line, in the
/// tests; `[]` is the empty history.
fn encode_ids(items: &[HistoryItem]) -> String {
    if items.is_empty() {
        return EMPTY_HISTORY.to_string();
    }
    items.iter().map(|i| i.id.clone()).collect::<Vec<_>>().join("\n")
}

fn decode_ids(text: &str) -> Vec<String> {
    if text == EMPTY_HISTORY {
        return vec![];
    }
    text.split('\n').map(|s| s.to_string()).collect()
}

#[test]
fn test_history_service_new() {
    let (temp_dir, dir) = config_dir();
    let service = HistoryService::new(&dir);
    assert_eq!(service.history_path(), temp_dir.path().join("history.json").to_str().unwrap());
}

#[test]
fn test_load_empty_history() {
    let service = HistoryService::new("/data");
    let mut fs = MemFiles::new();
    let (result, _) = fs.run(service.load(), &|_| true);
    assert_eq!(result.unwrap(), Loaded::Fresh);
    assert_eq!(decode_ids(&fs.files["/data/history.json"]).len(), 0);
}

fn append(service: &HistoryService, fs: &mut MemFiles, all: &mut Vec<HistoryItem>, new: HistoryItem) {
    let (result, text) = fs.run(service.load(), &|_| true);
    let current: Vec<HistoryItem> = match result.unwrap() {
        Loaded::Stored => decode_ids(&text.unwrap()).into_iter().map(|id| all.iter().find(|i| i.id == id).map(|i| item(&i.id, &i.title, &i.file_path)).unwrap()).collect(),
        _ => vec![],
    };
    all.push(item(&new.id, &new.title, &new.file_path));
    let list = service.save(current, new);
    fs.run(service.save_all(encode_ids(&list)), &|_| true).0.unwrap();
}

#[test]
fn test_save_and_load_single_item() {
    let service = HistoryService::new("/data");
    let mut fs = MemFiles::new();
    let mut all = vec![];
    append(&service, &mut fs, &mut all, item("test1", "Test Video 1", "/downloads/video1.mp4"));
    let loaded = decode_ids(&fs.files["/data/history.json"]);
    assert_eq!(loaded.len(), 1);
    assert_eq!(loaded[0], "test1");
}

#[test]
fn test_save_multiple_items() {
    let service = HistoryService::new("/data");
    let mut fs = MemFiles::new();
    let mut all = vec![];
    append(&service, &mut fs, &mut all, item("test1", "Test Video 1", "/downloads/video1.mp4"));
    append(&service, &mut fs, &mut all, item("test2", "Test Video 2", "/downloads/video2.mp4"));
    append(&service, &mut fs, &mut all, item("test3", "Test Video 3", "/downloads/video3.mp4"));
    let loaded = decode_ids(&fs.files["/data/history.json"]);
    assert_eq!(loaded.len(), 3);
    assert_eq!(loaded[0], "test3");
    assert_eq!(loaded[1], "test2");
    assert_eq!(loaded[2], "test1");
}

#[test]
fn test_clear_history() {
    let service = HistoryService::new("/data");
    let mut fs = MemFiles::new();
    let mut all = vec![];
    fs.files.insert("/data/video.mp4".to_string(), "test video content".to_string());
    append(&service, &mut fs, &mut all, item("test1", "Test Video", "/data/video.mp4"));
    assert_eq!(decode_ids(&fs.files["/data/history.json"]).len(), 1);
    fs.run(service.clear(), &|_| true).0.unwrap();
    assert_eq!(decode_ids(&fs.files["/data/history.json"]).len(), 0);
    assert!(fs.files.contains_key("/data/video.mp4"));
}

#[test]
fn test_file_exists_check() {
    let items = vec![item("test2", "Missing Video", "/nonexistent/video.mp4"), item("test1", "Existing Video", "/tmp/existing.mp4")];
    let refreshed = refresh_existence(items, &vec![false, true]);
    assert_eq!(refreshed.len(), 2);
    assert_eq!(refreshed[0].file_exists, false);
    assert_eq!(refreshed[1].file_exists, true);
    assert_eq!(refreshed[1].id, "test1");
}

#[test]
fn history_service_test_atomic_write() {
    let service = HistoryService::new("/data");
    let mut fs = MemFiles::new();
    let mut all = vec![];
    append(&service, &mut fs, &mut all, item("test1", "Video 1", "/downloads/video1.mp4"));
    append(&service, &mut fs, &mut all, item("test2", "Video 2", "/downloads/video2.mp4"));
    let loaded = decode_ids(&fs.files["/data/history.json"]);
    assert_eq!(loaded.len(), 2);
    assert_eq!(loaded[0], "test2");
    assert!(!fs.files.contains_key("/data/history.json.tmp"));
}

/// Runs an installation against files in memory; `copy_fails` makes the
/// backup copy fail.
fn install(files: &mut HashMap<String, Vec<u8>>, service: &UpdateService, staged: &str, copy_fails: bool) -> (Result<(), youtube_downloader::AppError>, Vec<String>) {
    let (mut inst, mut op) = service.replace_ytdlp(staged.to_string(), true);
    let mut done = vec![];
    loop {
        let reply = match op {
            InstallOp::CheckExists(p) => InstallReply::Exists(files.contains_key(&p)),
            InstallOp::Copy(a, b) => {
                done.push(format!("copy {} {}", a, b));
                if copy_fails {
                    InstallReply::Copied(Err("permission denied".to_string()))
                } else {
                    let bytes = files[&a].clone();
                    files.insert(b, bytes);
                    InstallReply::Copied(Ok(()))
                }
            }
            InstallOp::Rename(a, b) => {
                done.push(format!("rename {} {}", a, b));
                let bytes = files.remove(&a).unwrap();
                files.insert(b, bytes);
                InstallReply::Renamed(Ok(()))
            }
            InstallOp::MakeExecutable(p) => {
                done.push(format!("chmod {}", p));
                InstallReply::Permitted(Ok(()))
            }
            InstallOp::Done(r) => return (r, done),
        };
        op = inst.step(reply);
    }
}

#[test]
fn test_replace_ytdlp() {
    let temp_dir = tempfile::TempDir::new().unwrap();
    let ytdlp_path = temp_dir.path().join("yt-dlp.exe");
    let new_file_path = temp_dir.path().join("yt-dlp.tmp");
    let exe = ytdlp_path.to_str().unwrap().to_string();
    let staged = new_file_path.to_str().unwrap().to_string();
    let mut files = HashMap::new();
    files.insert(exe.clone(), b"old version".to_vec());
    files.insert(staged.clone(), b"new version".to_vec());

    let service = UpdateService::new(exe.clone());
    let (result, _) = install(&mut files, &service, &staged, false);
    assert!(result.is_ok());

    let backup_path = ytdlp_path.with_extension("bak");
    let backup = backup_path.to_str().unwrap();
    assert!(files.contains_key(backup));
    assert_eq!(files[backup], b"old version");
    assert_eq!(files[&exe], b"new version");
    assert!(!files.contains_key(&staged));
    assert_eq!(service.staged_path(), staged);
}

#[test]
fn failed_backup_leaves_the_executable_untouched() {
    let mut files = HashMap::new();
    files.insert("/bin/yt-dlp".to_string(), b"old".to_vec());
    files.insert("/bin/yt-dlp.tmp".to_string(), b"new".to_vec());
    let service = UpdateService::new("/bin/yt-dlp".to_string());
    let (result, done) = install(&mut files, &service, "/bin/yt-dlp.tmp", true);
    match result {
        Err(youtube_downloader::AppError::FileSystemError(m)) => assert_eq!(m, "permission denied"),
        _ => panic!("expected a file-system error"),
    }
    assert_eq!(done, vec!["copy /bin/yt-dlp /bin/yt-dlp.bak"]);
    assert_eq!(files["/bin/yt-dlp"], b"old");
    assert!(files.contains_key("/bin/yt-dlp.tmp"));
}

#[test]
fn install_without_existing_executable_skips_the_backup() {
    let mut files = HashMap::new();
    files.insert("/bin/yt-dlp.tmp".to_string(), b"new".to_vec());
    let service = UpdateService::new("/bin/yt-dlp".to_string());
    let (result, done) = install(&mut files, &service, "/bin/yt-dlp.tmp", false);
    assert!(result.is_ok());
    assert_eq!(done, vec!["rename /bin/yt-dlp.tmp /bin/yt-dlp", "chmod /bin/yt-dlp"]);
    assert!(!files.contains_key("/bin/yt-dlp.bak"));
}

#[test]
fn update_progress_reports_bytes() {
    let p = youtube_downloader::update::update_progress(1024, 2048);
    assert_eq!(p.percent, 50);
    assert_eq!(p.downloaded, "1024 bytes");
    assert_eq!(p.total, "2048 bytes");
    assert_eq!(youtube_downloader::update::update_progress(5, 0).percent, 100);
}

fn encode_items(items: &[HistoryItem]) -> String {
    let values: Vec<serde_json::Value> = items
        .iter()
        .map(|i| {
            let mut m = serde_json::Map::new();
            m.insert("id".to_string(), serde_json::Value::from(i.id.clone()));
            m.insert("title".to_string(), serde_json::Value::from(i.title.clone()));
            m.insert("url".to_string(), serde_json::Value::from(i.url.clone()));
            m.insert("resolution".to_string(), serde_json::Value::from(i.resolution.clone()));
            m.insert("filePath".to_string(), serde_json::Value::from(i.file_path.clone()));
            m.insert("fileSize".to_string(), serde_json::Value::from(i.file_size));
            m.insert("downloadedAt".to_string(), serde_json::Value::from(i.downloaded_at));
            m.insert("fileExists".to_string(), serde_json::Value::from(i.file_exists));
            serde_json::Value::Object(m)
        })
        .collect();
    serde_json::to_string_pretty(&serde_json::Value::Array(values)).unwrap()
}

fn decode_items(text: &str) -> Option<Vec<HistoryItem>> {
    let v: serde_json::Value = serde_json::from_str(text).ok()?;
    v.as_array()?
        .iter()
        .map(|i| {
            Some(HistoryItem {
                id: i.get("id")?.as_str()?.to_string(),
                title: i.get("title")?.as_str()?.to_string(),
                url: i.get("url")?.as_str()?.to_string(),
                resolution: i.get("resolution")?.as_str()?.to_string(),
                file_path: i.get("filePath")?.as_str()?.to_string(),
                file_size: i.get("fileSize")?.as_u64()?,
                downloaded_at: i.get("downloadedAt")?.as_i64()?,
                file_exists: i.get("fileExists")?.as_bool()?,
            })
        })
        .collect()
}

#[test]
fn history_round_trip_recomputes_existence() {
    let service = HistoryService::new("/data");
    let mut fs = MemFiles::new();
    let original = HistoryItem {
        id: "abc-1".to_string(),
        title: "A title".to_string(),
        url: "https://example.com/v".to_string(),
        resolution: "720p".to_string(),
        file_path: "/downloads/missing.mkv".to_string(),
        file_size: 9_999_999_999,
        downloaded_at: 1_500_000_000,
        file_exists: true,
    };
    let copy = HistoryItem { id: original.id.clone(), title: original.title.clone(), url: original.url.clone(), resolution: original.resolution.clone(), file_path: original.file_path.clone(), ..original };
    let list = service.save(vec![], copy);
    fs.run(service.save_all(encode_items(&list)), &|t| decode_items(t).is_some()).0.unwrap();
    let (result, text) = fs.run(service.load(), &|t| decode_items(t).is_some());
    assert_eq!(result.unwrap(), Loaded::Stored);
    let loaded = decode_items(&text.unwrap()).unwrap();
    let exists: Vec<bool> = loaded.iter().map(|i| fs.files.contains_key(&i.file_path)).collect();
    let loaded = refresh_existence(loaded, &exists);
    assert_eq!(loaded.len(), 1);
    assert_eq!(loaded[0], HistoryItem { file_exists: false, ..original });
}
