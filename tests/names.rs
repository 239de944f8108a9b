use youtube_downloader::resolve_filename_conflict;

fn names(v: &[&str]) -> Vec<String> {
    v.iter().map(|s| s.to_string()).collect()
}

#[test]
fn test_resolve_filename_conflict_no_conflict() {
    let result = resolve_filename_conflict(&names(&[]), "test.txt");
    assert!(result.is_ok());
    assert_eq!(result.unwrap(), "test.txt");
}

#[test]
fn test_resolve_filename_conflict_with_conflict() {
    let result = resolve_filename_conflict(&names(&["test.txt"]), "test.txt");
    assert!(result.is_ok());
    assert_eq!(result.unwrap(), "test_1.txt");
}

#[test]
fn test_resolve_filename_conflict_multiple_conflicts() {
    let result = resolve_filename_conflict(&names(&["test.txt", "test_1.txt", "test_2.txt"]), "test.txt");
    assert!(result.is_ok());
    assert_eq!(result.unwrap(), "test_3.txt");
}

#[test]
fn test_resolve_filename_conflict_no_extension() {
    let result = resolve_filename_conflict(&names(&["test"]), "test");
    assert!(result.is_ok());
    assert_eq!(result.unwrap(), "test_1");
}

#[test]
fn conflict_names_use_the_last_extension_only() {
    assert_eq!(resolve_filename_conflict(&names(&["a.tar.gz"]), "a.tar.gz").unwrap(), "a.tar_1.gz");
    assert_eq!(resolve_filename_conflict(&names(&[".hidden"]), ".hidden").unwrap(), ".hidden_1");
}
