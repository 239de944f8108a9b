use youtube_downloader::media::YtdlpService;
use youtube_downloader::progress::parse_progress;

fn percent_of(text: &str) -> f32 {
    text.parse::<f32>().unwrap()
}

#[test]
fn test_parse_progress_valid() {
    let line = "[download]  45.2% of 280.00MiB at 2.50MiB/s ETA 00:52";
    let progress = YtdlpService::parse_progress("task-123", line);

    assert!(progress.is_some());
    let progress = progress.unwrap();

    assert_eq!(progress.task_id, "task-123");
    assert_eq!(percent_of(&progress.percent), 45.2);
    assert_eq!(progress.total, "280.00MiB");
    assert_eq!(progress.speed, "2.50MiB/s");
    assert_eq!(progress.eta, "00:52");
}

#[test]
fn test_parse_progress_complete() {
    let line = "[download] 100% of 280.00MiB in 01:52";
    let progress = YtdlpService::parse_progress("task-456", line);

    assert!(progress.is_some());
    let progress = progress.unwrap();

    assert_eq!(progress.task_id, "task-456");
    assert_eq!(percent_of(&progress.percent), 100.0);
    assert_eq!(progress.total, "280.00MiB");
}

#[test]
fn test_parse_progress_invalid() {
    let line = "Some other output";
    let progress = YtdlpService::parse_progress("task-789", line);

    assert!(progress.is_none());
}

#[test]
fn test_parse_progress_no_speed() {
    let line = "[download]  10.5% of 100.00MiB";
    let progress = YtdlpService::parse_progress("task-999", line);

    assert!(progress.is_some());
    let progress = progress.unwrap();

    assert_eq!(percent_of(&progress.percent), 10.5);
    assert_eq!(progress.speed, "N/A");
    assert_eq!(progress.eta, "N/A");
}

#[test]
fn test_progress_parsing_100_percent() {
    let line = "[download] 100.0% of 500.00MiB at 5.00MiB/s ETA 00:00";
    let progress = YtdlpService::parse_progress("task-complete", line);

    assert!(progress.is_some());
    let progress = progress.unwrap();

    assert_eq!(percent_of(&progress.percent), 100.0);
    assert!(!progress.total.is_empty());
    assert!(!progress.speed.is_empty());
    assert!(!progress.eta.is_empty());
    assert!(!progress.downloaded.is_empty());
}

#[test]
fn test_progress_parsing_without_speed_eta() {
    let line = "[download]  25.5% of 150.00MiB";
    let progress = YtdlpService::parse_progress("task-slow", line);

    assert!(progress.is_some());
    let progress = progress.unwrap();

    assert_eq!(percent_of(&progress.percent), 25.5);
    assert!(!progress.total.is_empty());
    assert_eq!(progress.speed, "N/A");
    assert_eq!(progress.eta, "N/A");
    assert!(!progress.downloaded.is_empty());
}

#[test]
fn downloaded_shows_percentage_to_one_decimal() {
    let p = parse_progress("t", "[download]  45.2% of 280.00MiB").unwrap();
    assert_eq!(p.downloaded, "45.2%");
    let p = parse_progress("t", "[download]   5% of 1.00KiB").unwrap();
    assert_eq!(p.downloaded, "5.0%");
    let p = parse_progress("t", "[download]  99.96% of 1.00KiB").unwrap();
    assert_eq!(p.downloaded, "100.0%");
    let p = parse_progress("t", "[download]  12.34% of 1.00KiB").unwrap();
    assert_eq!(p.downloaded, "12.3%");
}

#[test]
fn downloaded_is_total_once_complete() {
    let p = parse_progress("t", "[download] 100% of 280.00MiB in 01:52").unwrap();
    assert_eq!(p.downloaded, "280.00MiB");
    assert_eq!(p.speed, "N/A");
    assert_eq!(p.eta, "N/A");
}

#[test]
fn well_formed_lines_round_trip_for_each_optional_part() {
    for (rate, eta) in [(None, None), (Some("2.50MiB/s"), None), (None, Some("00:52")), (Some("1.0KiB/s"), Some("1:02:03"))] {
        let mut line = String::from("[download] 0.0% of 12.5MiB");
        if let Some(r) = rate {
            line.push_str(" at ");
            line.push_str(r);
        }
        if let Some(e) = eta {
            line.push_str(" ETA ");
            line.push_str(e);
        }
        let p = parse_progress("id", &line).unwrap();
        assert_eq!(p.percent, "0.0");
        assert_eq!(p.total, "12.5MiB");
        assert_eq!(p.speed, rate.unwrap_or("N/A"));
        assert_eq!(p.eta, eta.unwrap_or("N/A"));
    }
}

#[test]
fn lines_without_the_tag_yield_nothing() {
    for line in ["", "45.2% of 280.00MiB", "[info] Downloading 1 format", "[Download] 5% of 1MiB", "ERROR: unable"] {
        assert!(parse_progress("t", line).is_none());
    }
}

#[test]
fn tagged_lines_that_do_not_match_are_dropped() {
    assert!(parse_progress("t", "[download] Destination: a.mp4").is_none());
    assert!(parse_progress("t", "[download]45% of 1MiB").is_none());
    assert!(parse_progress("t", "[download] 45% of 5").is_none());
}

#[test]
fn size_token_backs_off_to_a_digit() {
    let p = parse_progress("t", "[download] 5% of 280 at x").unwrap();
    assert_eq!(p.total, "280");
    assert_eq!(p.speed, "N/A");
}

#[test]
fn a_later_tag_is_used_when_the_first_does_not_match() {
    let p = parse_progress("t", "[download] x [download] 7% of 2MiB").unwrap();
    assert_eq!(p.percent, "7");
    assert_eq!(p.total, "2MiB");
}

#[test]
fn unicode_whitespace_separates_the_parts() {
    let p = parse_progress("t", "[download]\u{a0}45.2%\u{2003}of 280.00MiB\tat 2.50MiB/s\u{3000}ETA 00:52").unwrap();
    assert_eq!(p.percent, "45.2");
    assert_eq!(p.total, "280.00MiB");
    assert_eq!(p.speed, "2.50MiB/s");
    assert_eq!(p.eta, "00:52");
}
