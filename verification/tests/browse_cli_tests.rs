use virtual_agency::browse::DirEntry;
use virtual_agency::browse::browse_entries;
use virtual_agency::browse::browse_keep;
use virtual_agency::cli::check_cli_status;
use virtual_agency::cli::cli_candidates;
use virtual_agency::cli::pick_first_existing;
use virtual_agency::cli::resolve_cli;
use virtual_agency::images::ext_for_mime;
use virtual_agency::images::image_filename;
use virtual_agency::images::prepare_image;
use virtual_agency::settings::AppSettings;

fn entry(name: &str, is_dir: bool) -> DirEntry {
    DirEntry {
        name: name.to_string(),
        path: format!("/x/{}", name),
        is_dir,
    }
}

#[test]
fn the_browser_shows_only_visible_directories() {
    assert!(browse_keep(&entry("src", true)));
    assert!(!browse_keep(&entry(".hidden", true)));
    assert!(!browse_keep(&entry("file.txt", false)));
}

#[test]
fn browsed_directories_sort_case_insensitively() {
    let v = vec![
        entry("Zoo", true),
        entry("apple", true),
        entry(".git", true),
        entry("Beta", true),
        entry("notes.txt", false),
    ];
    let sorted = browse_entries(v);
    let names: Vec<&str> = sorted.iter().map(|e| e.name.as_str()).collect();
    // Byte order would put the capitals first; folding to lower case
    // interleaves them.
    assert_eq!(names, vec!["apple", "Beta", "Zoo"]);
}

#[test]
fn cli_status_reflects_the_probe() {
    let found = check_cli_status(Some("/usr/local/bin/assistant".to_string()));
    assert!(found.installed);
    assert_eq!(found.path.as_deref(), Some("/usr/local/bin/assistant"));
    assert!(found.version.is_none());
    let missing = check_cli_status(None);
    assert!(!missing.installed);
    assert!(missing.path.is_none());
}

#[test]
fn candidates_cover_the_usual_installations() {
    let c = cli_candidates("/home/u");
    assert_eq!(
        c,
        vec![
            "assistant".to_string(),
            "/opt/homebrew/bin/assistant".to_string(),
            "/usr/local/bin/assistant".to_string(),
            "/home/u/.npm-global/bin/assistant".to_string(),
            "/home/u/node_modules/.bin/assistant".to_string(),
            "/home/u/.nvm/versions/node/*/bin/assistant".to_string(),
            "./node_modules/.bin/assistant".to_string(),
        ]
    );
}

#[test]
fn the_first_existing_candidate_wins() {
    let candidates = vec!["a".to_string(), "b".to_string(), "c".to_string()];
    let exists = vec![false, true, true];
    assert_eq!(pick_first_existing(&candidates, &exists), Some("b".to_string()));
    assert_eq!(pick_first_existing(&candidates, &vec![false, false, false]), None);
}

#[test]
fn the_system_lookup_takes_precedence() {
    let candidates = vec!["a".to_string()];
    let exists = vec![true];
    assert_eq!(
        resolve_cli(Some("/which/assistant".to_string()), &candidates, &exists),
        Some("/which/assistant".to_string())
    );
    assert_eq!(
        resolve_cli(Some("".to_string()), &candidates, &exists),
        Some("a".to_string())
    );
    assert_eq!(resolve_cli(None, &candidates, &exists), Some("a".to_string()));
}

#[test]
fn fresh_settings_use_the_documented_defaults() {
    let s = AppSettings::default();
    assert!(s.cli_path.is_none());
    assert_eq!(s.theme, "dark");
    assert!(s.auto_save_enabled);
    assert_eq!(s.auto_save_interval_seconds, 30);
    assert!(s.default_working_directory.is_none());
}

#[test]
fn image_extensions_follow_the_mime_type() {
    assert_eq!(ext_for_mime("image/png"), "png");
    assert_eq!(ext_for_mime("image/jpeg"), "jpg");
    assert_eq!(ext_for_mime("image/jpg"), "jpg");
    assert_eq!(ext_for_mime("image/gif"), "gif");
    assert_eq!(ext_for_mime("image/webp"), "webp");
    assert_eq!(ext_for_mime("image/bmp"), "bmp");
    assert_eq!(ext_for_mime("application/pdf"), "png");
}

#[test]
fn image_files_are_named_by_process_and_index() {
    assert_eq!(
        image_filename(4217, 0, "image/png"),
        "virtual-agency-image-4217-0.png"
    );
    assert_eq!(
        image_filename(7, 12, "image/jpeg"),
        "virtual-agency-image-7-12.jpg"
    );
}

#[test]
fn images_decode_from_base64() {
    let (name, bytes) = prepare_image("aGVsbG8=", "image/png", 1, 2).unwrap();
    assert_eq!(name, "virtual-agency-image-1-2.png");
    assert_eq!(bytes, b"hello");
}

#[test]
fn invalid_base64_is_reported() {
    let err = prepare_image("not base64!!!", "image/png", 1, 0).unwrap_err();
    assert!(err.starts_with("Failed to decode base64:"));
}
