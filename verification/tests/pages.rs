use webwiki::pages::{admit_page, reads_markdown_file, static_file, PageError};
use webwiki::routes::{
    current_volume, shows_sync_mark, shows_volume_switcher, switch, toggle_theme, Route,
    INDEX_PAGE,
};

fn wiki(volume: &str, path: &str) -> Route {
    Route::Wiki { volume: volume.to_string(), path: path.to_string() }
}

#[test]
fn pages_with_dots_are_refused_first() {
    assert_eq!(admit_page("../secret", true), Err(PageError::InvalidPath));
    assert_eq!(admit_page("../secret", false), Err(PageError::InvalidPath));
    assert_eq!(admit_page("/etc/passwd", false), Err(PageError::AccessDenied));
    assert_eq!(admit_page("test.md", true), Ok(()));
    assert_eq!(admit_page("missing.md", true), Ok(()));
}

#[test]
fn page_errors_have_codes_and_words() {
    assert_eq!(PageError::InvalidPath.status_code(), 403);
    assert_eq!(PageError::InvalidPath.message(), "Invalid path");
    assert_eq!(PageError::AccessDenied.status_code(), 403);
    assert_eq!(PageError::AccessDenied.message(), "Access denied");
    assert_eq!(PageError::NotFound.status_code(), 404);
    assert_eq!(PageError::NotFound.message(), "Page not found");
    assert_eq!(PageError::DirectoryFailed.status_code(), 500);
    assert_eq!(PageError::DirectoryFailed.message(), "Failed to create directory");
}

#[test]
fn markdown_file_stands_in_for_a_missing_one() {
    assert!(reads_markdown_file(false, false, true));
    assert!(reads_markdown_file(true, true, true));
    assert!(!reads_markdown_file(true, false, true));
    assert!(!reads_markdown_file(false, false, false));
    assert!(!reads_markdown_file(true, true, false));
}

#[test]
fn static_files_are_named_without_leading_slashes() {
    assert_eq!(static_file("/app.js"), Some("app.js".to_string()));
    assert_eq!(static_file("///css/site.css"), Some("css/site.css".to_string()));
    assert_eq!(static_file("a/b/"), Some("a/b/".to_string()));
    assert_eq!(static_file("/"), None);
    assert_eq!(static_file("//"), None);
    assert_eq!(static_file(""), None);
}

#[test]
fn current_volume_defaults() {
    assert_eq!(current_volume(Some(&wiki("work", "a.md"))), "work");
    assert_eq!(current_volume(Some(&Route::Home)), "default");
    assert_eq!(current_volume(Some(&Route::NotFound)), "default");
    assert_eq!(current_volume(None), "default");
}

#[test]
fn places_show_pages() {
    assert_eq!(INDEX_PAGE, "index.md");
    assert_eq!(switch(&wiki("work", "dir/a.md")), Some("dir/a.md".to_string()));
    assert_eq!(switch(&Route::Home), Some("index.md".to_string()));
    assert_eq!(switch(&Route::NotFound), None);
}

#[test]
fn themes_take_turns() {
    assert_eq!(toggle_theme("dark"), "light");
    assert_eq!(toggle_theme("light"), "dark");
    assert_eq!(toggle_theme("anything"), "dark");
    assert_eq!(toggle_theme(toggle_theme("dark")), "dark");
}

#[test]
fn marks_and_switcher() {
    assert!(!shows_volume_switcher(0));
    assert!(!shows_volume_switcher(1));
    assert!(shows_volume_switcher(2));
    assert!(!shows_sync_mark(0, 0));
    assert!(shows_sync_mark(1, 0));
    assert!(shows_sync_mark(0, 2));
}
