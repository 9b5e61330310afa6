use oxide_browser::download::{
    candidate_name, filename_from_url, DownloadManager, DownloadState,
};

#[test]
fn filename_extraction() {
    assert_eq!(
        filename_from_url("https://github.com/robots.txt"),
        "robots.txt"
    );
    assert_eq!(
        filename_from_url("https://example.com/path/to/file.zip"),
        "file.zip"
    );
    assert_eq!(filename_from_url("https://example.com/"), "download");
    assert_eq!(filename_from_url("https://example.com"), "download");
    assert_eq!(
        filename_from_url("https://example.com/hello%20world.pdf"),
        "hello world.pdf"
    );
}

#[test]
fn filename_falls_back_when_unparsable() {
    assert_eq!(filename_from_url("not a url"), "download");
    assert_eq!(filename_from_url("mailto:someone@example.com"), "download");
}

#[test]
fn candidate_names_number_before_extension() {
    assert_eq!(candidate_name("test.txt", 0), "test.txt");
    assert_eq!(candidate_name("test.txt", 1), "test (1).txt");
    assert_eq!(candidate_name("robots.txt", 12), "robots (12).txt");
    assert_eq!(candidate_name("archive.tar.gz", 2), "archive.tar (2).gz");
    assert_eq!(candidate_name("README", 3), "README (3)");
    assert_eq!(candidate_name(".bashrc", 1), ".bashrc (1)");
}

#[test]
fn list_start_cancel_dismiss() {
    let mut list = DownloadManager::new();
    let a = list.start("https://x/a.zip".to_string(), "a.zip".to_string());
    let b = list.start("https://x/b.zip".to_string(), "b.zip".to_string());
    assert_eq!((a, b), (1, 2));
    assert!(list.has_active());

    list.cancel(a);
    assert_eq!(list.downloads()[0].state, DownloadState::Cancelled);
    assert!(list.is_cancelled(a));
    assert!(list.downloads()[0].is_finished());

    list.set_state(b, DownloadState::Completed);
    assert!(!list.has_active());
    // Cancelling a finished download changes nothing.
    list.cancel(b);
    assert_eq!(list.downloads()[1].state, DownloadState::Completed);

    list.dismiss(a);
    assert_eq!(list.downloads().len(), 1);
    assert_eq!(list.downloads()[0].id, b);
}

#[test]
fn progress_updates_touch_only_their_download() {
    let mut list = DownloadManager::new();
    let a = list.start("u1".to_string(), "f1".to_string());
    let b = list.start("u2".to_string(), "f2".to_string());
    list.set_total(b, Some(1000));
    list.set_downloaded(b, 250);
    assert_eq!(list.downloads()[0].bytes_downloaded, 0);
    assert_eq!(list.downloads()[0].total_bytes, None);
    assert_eq!(list.downloads()[1].bytes_downloaded, 250);
    assert_eq!(list.downloads()[1].total_bytes, Some(1000));
    list.set_state(a, DownloadState::Failed("HTTP 404".to_string()));
    assert_eq!(
        list.downloads()[0].state,
        DownloadState::Failed("HTTP 404".to_string())
    );
    // Unknown ids are ignored.
    list.set_downloaded(99, 5);
    list.dismiss(99);
    assert_eq!(list.downloads().len(), 2);
}

#[test]
fn cancel_twice_same_as_once() {
    let mut list = DownloadManager::new();
    let a = list.start("u".to_string(), "f".to_string());
    list.cancel(a);
    list.cancel(a);
    assert_eq!(list.downloads()[0].state, DownloadState::Cancelled);
}
