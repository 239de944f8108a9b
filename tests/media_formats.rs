use youtube_downloader::media::{Format, RawFormat, RawVideo, YtdlpService};
use youtube_downloader::AppError;

fn service() -> YtdlpService {
    YtdlpService::with_path("yt-dlp".to_string())
}

fn raw_format() -> RawFormat {
    RawFormat {
        format_id: None,
        vcodec: None,
        acodec: None,
        ext: None,
        resolution: None,
        width: None,
        height: None,
        format_note: None,
        filesize: None,
        filesize_approx: None,
        fps: None,
    }
}

fn format(id: &str, resolution: &str, acodec: &str) -> Format {
    Format {
        format_id: id.to_string(),
        resolution: resolution.to_string(),
        ext: "mp4".to_string(),
        filesize: None,
        fps: Some(30),
        vcodec: "avc1".to_string(),
        acodec: acodec.to_string(),
    }
}

fn raw_video(formats: Vec<RawFormat>) -> RawVideo {
    RawVideo {
        id: Some("test123".to_string()),
        title: Some("Test Video".to_string()),
        duration: Some(300),
        thumbnail: Some("https://example.com/thumb.jpg".to_string()),
        uploader: Some("Test User".to_string()),
        formats: Some(formats),
    }
}

#[test]
fn test_parse_resolution_from_dimensions() {
    let service = service();
    let mut json = raw_format();
    json.width = Some(1920);
    json.height = Some(1080);
    let resolution = service.parse_resolution(&json);
    assert_eq!(resolution, "1920x1080");
}

#[test]
fn test_parse_resolution_from_resolution_field() {
    let service = service();
    let mut json = raw_format();
    json.resolution = Some("1920x1080".to_string());
    let resolution = service.parse_resolution(&json);
    assert_eq!(resolution, "1920x1080");
}

#[test]
fn test_parse_resolution_from_format_note() {
    let service = service();
    let mut json = raw_format();
    json.format_note = Some("1080p".to_string());
    let resolution = service.parse_resolution(&json);
    assert_eq!(resolution, "1080p");
}

#[test]
fn test_parse_resolution_unknown() {
    let service = service();
    let json = raw_format();
    let resolution = service.parse_resolution(&json);
    assert_eq!(resolution, "unknown");
}

#[test]
fn audio_only_resolution_falls_through() {
    let service = service();
    let mut json = raw_format();
    json.resolution = Some("audio only".to_string());
    json.format_note = Some("medium".to_string());
    assert_eq!(service.parse_resolution(&json), "unknown");
}

#[test]
fn test_empty_formats_returns_error() {
    let service = service();
    let result = service.parse_video_info(Ok(raw_video(vec![])));

    assert!(result.is_err());
    match result {
        Err(AppError::ParseError(msg)) => {
            assert!(msg.contains("\u{6ca1}\u{6709}\u{53ef}\u{7528}\u{7684}\u{89c6}\u{9891}\u{683c}\u{5f0f}"));
        }
        _ => panic!("expected ParseError"),
    }
}

#[test]
fn test_audio_only_formats_filtered() {
    let service = service();
    let mut audio = raw_format();
    audio.format_id = Some("140".to_string());
    audio.vcodec = Some("none".to_string());
    audio.acodec = Some("mp4a".to_string());
    audio.ext = Some("m4a".to_string());
    let mut video = raw_format();
    video.format_id = Some("137".to_string());
    video.vcodec = Some("avc1".to_string());
    video.acodec = Some("mp4a".to_string());
    video.ext = Some("mp4".to_string());
    video.width = Some(1920);
    video.height = Some(1080);

    let result = service.parse_video_info(Ok(raw_video(vec![audio, video])));

    assert!(result.is_ok());
    let video_info = result.unwrap();
    assert_eq!(video_info.formats.len(), 1);
    assert_eq!(video_info.formats[0].format_id, "137");
}

#[test]
fn video_info_fields_and_defaults() {
    let service = service();
    let mut v = raw_format();
    v.vcodec = Some("vp9".to_string());
    v.filesize_approx = Some(77);
    v.fps = Some(60);
    let mut raw = raw_video(vec![v]);
    raw.uploader = None;
    raw.thumbnail = None;
    raw.duration = None;
    let info = service.parse_video_info(Ok(raw)).unwrap();
    assert_eq!(info.id, "test123");
    assert_eq!(info.title, "Test Video");
    assert_eq!(info.duration, 0);
    assert_eq!(info.thumbnail, "");
    assert_eq!(info.uploader, "Unknown");
    let f = &info.formats[0];
    assert_eq!(f.format_id, "");
    assert_eq!(f.ext, "mp4");
    assert_eq!(f.filesize, Some(77));
    assert_eq!(f.fps, Some(60));
    assert_eq!(f.acodec, "none");
    assert_eq!(f.resolution, "unknown");
}

#[test]
fn missing_fields_are_parse_errors() {
    let service = service();
    let mut raw = raw_video(vec![]);
    raw.id = None;
    assert!(matches!(service.parse_video_info(Ok(raw)), Err(AppError::ParseError(_))));
    let mut raw = raw_video(vec![]);
    raw.title = None;
    assert!(matches!(service.parse_video_info(Ok(raw)), Err(AppError::ParseError(_))));
    let mut raw = raw_video(vec![]);
    raw.formats = None;
    assert!(matches!(service.parse_video_info(Ok(raw)), Err(AppError::ParseError(_))));
    match service.parse_video_info(Err("expected value".to_string())) {
        Err(AppError::ParseError(m)) => assert!(m.ends_with("expected value")),
        _ => panic!("expected ParseError"),
    }
}

#[test]
fn test_extract_pixel_count() {
    let service = service();
    assert_eq!(service.extract_pixel_count("1920x1080"), 2_073_600);
    assert_eq!(service.extract_pixel_count("1280x720"), 921_600);
    assert_eq!(service.extract_pixel_count("1080p"), 2_073_600);
    assert_eq!(service.extract_pixel_count("720p"), 921_600);
    assert_eq!(service.extract_pixel_count("480p"), 409_440);
    assert_eq!(service.extract_pixel_count("unknown"), 0);
}

#[test]
fn pixel_count_edge_cases() {
    let service = service();
    assert_eq!(service.extract_pixel_count("axb"), 0);
    assert_eq!(service.extract_pixel_count("+2x3"), 6);
    assert_eq!(service.extract_pixel_count("x"), 0);
    assert_eq!(service.extract_pixel_count("p"), 0);
    assert_eq!(service.extract_pixel_count("18446744073709551615x2"), u64::MAX);
    assert_eq!(service.extract_pixel_count("99999999999p"), u64::MAX);
}

#[test]
fn test_sort_formats_by_resolution() {
    let service = service();
    let formats = vec![
        format("1", "720p", "mp4a"),
        format("2", "1080p", "mp4a"),
        format("3", "480p", "mp4a"),
    ];
    let sorted = service.sort_formats_by_resolution(formats);
    assert_eq!(sorted[0].resolution, "1080p");
    assert_eq!(sorted[1].resolution, "720p");
    assert_eq!(sorted[2].resolution, "480p");
}

#[test]
fn sorting_keeps_order_of_equal_counts() {
    let service = service();
    let formats = vec![
        format("a", "720p", "x"),
        format("b", "1920x1080", "x"),
        format("c", "1280x720", "x"),
        format("d", "1080p", "x"),
        format("e", "unknown", "x"),
    ];
    let ids: Vec<String> = service.sort_formats_by_resolution(formats).into_iter().map(|f| f.format_id).collect();
    assert_eq!(ids, vec!["b", "d", "a", "c", "e"]);
}

#[test]
fn test_select_default_resolution_with_1080p() {
    let service = service();
    let formats = vec![format("137", "1080p", "mp4a"), format("136", "720p", "mp4a")];
    let default_id = service.select_default_resolution(&formats);
    assert_eq!(default_id, Some("137".to_string()));
}

#[test]
fn test_select_default_resolution_closest() {
    let service = service();
    let formats = vec![format("136", "720p", "mp4a"), format("138", "2160p", "mp4a")];
    let default_id = service.select_default_resolution(&formats);
    assert_eq!(default_id, Some("136".to_string()));
}

#[test]
fn default_resolution_edge_cases() {
    let service = service();
    assert_eq!(service.select_default_resolution(&vec![]), None);
    assert_eq!(service.select_default_resolution(&vec![format("1", "unknown", "x")]), None);
    let later_exact = vec![format("1", "720p", "x"), format("2", "1920x1080", "x"), format("3", "1080p", "x")];
    assert_eq!(service.select_default_resolution(&later_exact), Some("2".to_string()));
}

#[test]
fn test_needs_audio_merge() {
    let service = service();
    let mut format_needs_merge = format("137", "1080p", "none");
    format_needs_merge.vcodec = "avc1".to_string();
    assert!(service.needs_audio_merge(&format_needs_merge));
    let format_no_merge = format("22", "720p", "mp4a");
    assert!(!service.needs_audio_merge(&format_no_merge));
}

#[test]
fn test_format_filesize() {
    let service = service();
    assert_eq!(service.format_filesize(Some(2_147_483_648)), "2.00 GB");
    assert_eq!(service.format_filesize(Some(52_428_800)), "50.00 MB");
    assert_eq!(service.format_filesize(Some(10_240)), "10.00 KB");
    assert_eq!(service.format_filesize(Some(512)), "512 B");
    assert_eq!(service.format_filesize(None), "\u{672a}\u{77e5}\u{5927}\u{5c0f}");
}

#[test]
fn filesize_rounds_to_two_decimals() {
    let service = service();
    assert_eq!(service.format_filesize(Some(1024)), "1.00 KB");
    assert_eq!(service.format_filesize(Some(1023)), "1023 B");
    assert_eq!(service.format_filesize(Some(1536)), "1.50 KB");
    assert_eq!(service.format_filesize(Some(1_572_864)), "1.50 MB");
    assert_eq!(service.format_filesize(Some(1029)), "1.00 KB");
    assert_eq!(service.format_filesize(Some(u64::MAX)), "17179869184.00 GB");
}
