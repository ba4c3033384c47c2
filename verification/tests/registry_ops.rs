use el_download::registry::DownloadRegistry;
use el_download::DownloadError;

fn s(x: &str) -> String {
    x.to_string()
}

#[test]
fn create_duplicate_rejected() {
    let mut reg = DownloadRegistry::new();
    assert!(reg.el_download(s("http://example/file.zip"), s("abcd")).is_ok());
    reg.append_chunk(&s("abcd"), &vec![1u8, 2, 3]).unwrap();
    let second = reg.el_download(s("http://example/other.zip"), s("abcd"));
    assert_eq!(second, Err(DownloadError::DuplicateKey));
    // the first download's state is unaffected
    let info = reg.el_download_progress(s("abcd")).unwrap();
    assert_eq!(info.downloaded, 3);
    assert!(!info.finished);
    assert_eq!(info.err, None);
}

#[test]
fn unknown_key_not_found() {
    let reg = DownloadRegistry::new();
    assert_eq!(
        reg.el_download_progress(s("missing")).map(|_| ()),
        Err(DownloadError::NotFound)
    );
    assert_eq!(
        reg.el_download_validate_sha256(s("missing")),
        Err(DownloadError::NotFound)
    );
    assert_eq!(
        reg.el_download_getfile(s("missing")),
        Err(DownloadError::NotFound)
    );
    let mut reg = reg;
    assert_eq!(
        reg.el_download_terminate(s("missing")),
        Err(DownloadError::NotFound)
    );
}

#[test]
fn terminated_key_not_found() {
    let mut reg = DownloadRegistry::new();
    reg.el_download(s("http://example/a"), s("k1")).unwrap();
    reg.el_download(s("http://example/b"), s("k2")).unwrap();
    assert!(reg.el_download_terminate(s("k1")).is_ok());
    assert_eq!(
        reg.el_download_progress(s("k1")).map(|_| ()),
        Err(DownloadError::NotFound)
    );
    assert_eq!(
        reg.el_download_validate_sha256(s("k1")),
        Err(DownloadError::NotFound)
    );
    assert_eq!(
        reg.el_download_getfile(s("k1")),
        Err(DownloadError::NotFound)
    );
    // the other download is untouched
    assert!(reg.el_download_progress(s("k2")).is_ok());
}

#[test]
fn terminate_idempotent() {
    let mut reg = DownloadRegistry::new();
    reg.el_download(s("http://example/a"), s("k")).unwrap();
    assert_eq!(reg.el_download_terminate(s("k")), Ok(()));
    // the second call fails with "not found", it does not crash
    assert_eq!(reg.el_download_terminate(s("k")), Err(DownloadError::NotFound));
}

#[test]
fn progress_monotone_over_appends() {
    let mut reg = DownloadRegistry::new();
    let key = s("k");
    reg.el_download(s("http://example/a"), key.clone()).unwrap();
    let mut last: usize = reg.el_download_progress(key.clone()).unwrap().downloaded;
    assert_eq!(last, 0);
    for chunk in [vec![1u8, 2], vec![], vec![3u8, 4, 5]] {
        reg.append_chunk(&key, &chunk).unwrap();
        let now = reg.el_download_progress(key.clone()).unwrap().downloaded;
        assert!(now >= last);
        last = now;
    }
    assert_eq!(last, 5);
    reg.mark_finished(&key).unwrap();
    assert!(reg.el_download_progress(key.clone()).unwrap().downloaded >= last);
}

#[test]
fn total_size_recorded() {
    let mut reg = DownloadRegistry::new();
    let key = s("k");
    reg.el_download(s("http://example/a"), key.clone()).unwrap();
    reg.record_total_size(&key, 1234).unwrap();
    let info = reg.el_download_progress(key.clone()).unwrap();
    assert_eq!(info.total_size, 1234);
    assert!(!info.finished);
}

#[test]
fn failure_recorded_and_buffer_frozen() {
    let mut reg = DownloadRegistry::new();
    let key = s("k");
    reg.el_download(s("http://example/a"), key.clone()).unwrap();
    reg.append_chunk(&key, &vec![9u8]).unwrap();
    reg.record_failure(&key, s("connection reset")).unwrap();
    let info = reg.el_download_progress(key.clone()).unwrap();
    assert_eq!(info.err.as_deref(), Some("connection reset"));
    assert!(!info.finished);
    // terminal: later writes are ignored
    reg.append_chunk(&key, &vec![1u8, 2, 3]).unwrap();
    reg.record_total_size(&key, 7).unwrap();
    reg.mark_finished(&key).unwrap();
    let info = reg.el_download_progress(key.clone()).unwrap();
    assert_eq!(info.downloaded, 1);
    assert_eq!(info.total_size, 0);
    assert!(!info.finished);
    assert_eq!(info.err.as_deref(), Some("connection reset"));
    // the bytes that arrived before the failure stay readable
    assert_eq!(reg.el_download_getfile(key).unwrap(), vec![9u8]);
}

#[test]
fn error_messages() {
    assert_eq!(DownloadError::DuplicateKey.message(), "downloading exists");
    assert_eq!(DownloadError::NotFound.message(), "Not exists");
    assert_eq!(DownloadError::NotFinished.message(), "Not finished");
    assert_eq!(DownloadError::HashDecode.message(), "Invalid hex in expected hash");
}
