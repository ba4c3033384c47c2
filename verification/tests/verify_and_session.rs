use el_download::registry::DownloadRegistry;
use el_download::session::download_init;
use el_download::DownloadError;
use sha2::Digest;

fn s(x: &str) -> String {
    x.to_string()
}

fn sha256_hex(data: &[u8]) -> String {
    hex::encode(sha2::Sha256::digest(data))
}

/// Drives a created download to a cleanly finished buffer holding `data`.
fn finish_with(reg: &mut DownloadRegistry, key: &String, data: &[u8]) {
    reg.append_chunk(key, &data.to_vec()).unwrap();
    reg.mark_finished(key).unwrap();
}

#[test]
fn validate_before_finished_fails() {
    let mut reg = DownloadRegistry::new();
    let key = sha256_hex(b"partial");
    reg.el_download(s("http://example/a"), key.clone()).unwrap();
    reg.append_chunk(&key, &b"partial".to_vec()).unwrap();
    // not yet finished: the precondition error, whatever the buffer holds
    assert_eq!(
        reg.el_download_validate_sha256(key),
        Err(DownloadError::NotFinished)
    );
}

#[test]
fn validate_idempotent() {
    let content = b"same bytes, asked twice";
    let mut reg = DownloadRegistry::new();
    let key = sha256_hex(content);
    reg.el_download(s("http://example/a"), key.clone()).unwrap();
    finish_with(&mut reg, &key, content);
    let first = reg.el_download_validate_sha256(key.clone());
    let second = reg.el_download_validate_sha256(key);
    assert_eq!(first, second);
    assert_eq!(first, Ok(true));
}

#[test]
fn round_trip_verify() {
    let content = b"the quick brown fox jumps over the lazy dog";
    let good = sha256_hex(content);
    let mut reg = DownloadRegistry::new();
    reg.el_download(s("http://example/a"), good.clone()).unwrap();
    finish_with(&mut reg, &good, content);
    assert_eq!(reg.el_download_validate_sha256(good.clone()), Ok(true));

    // change one hex digit to one of a different value: decodable, mismatching
    let mut chars: Vec<char> = good.chars().collect();
    chars[0] = if chars[0] == '0' { '1' } else { '0' };
    let bad: String = chars.into_iter().collect();
    assert_ne!(bad, good);
    reg.el_download(s("http://example/a"), bad.clone()).unwrap();
    finish_with(&mut reg, &bad, content);
    assert_eq!(reg.el_download_validate_sha256(bad), Ok(false));
}

#[test]
fn verify_is_case_insensitive() {
    let content = b"case of the digest should not matter";
    let upper = sha256_hex(content).to_uppercase();
    let mut reg = DownloadRegistry::new();
    reg.el_download(s("http://example/a"), upper.clone()).unwrap();
    finish_with(&mut reg, &upper, content);
    assert_eq!(reg.el_download_validate_sha256(upper), Ok(true));
}

#[test]
fn empty_buffer_known_digest() {
    // SHA-256 of the empty input, a fixed, externally known value
    let key = s("e3b0c44298fc1c149afbf4c8996fb92427ae41e4649b934ca495991b7852b855");
    let mut reg = DownloadRegistry::new();
    reg.el_download(s("http://example/empty"), key.clone()).unwrap();
    reg.mark_finished(&key).unwrap();
    assert_eq!(reg.el_download_validate_sha256(key), Ok(true));
}

#[test]
fn invalid_hex_hash_rejected() {
    let mut reg = DownloadRegistry::new();
    let key = s("not-hex!");
    reg.el_download(s("http://example/a"), key.clone()).unwrap();
    reg.mark_finished(&key).unwrap();
    assert_eq!(
        reg.el_download_validate_sha256(key.clone()),
        Err(DownloadError::HashDecode)
    );
    // odd length is rejected too
    let odd = s("abc");
    reg.el_download(s("http://example/b"), odd.clone()).unwrap();
    reg.mark_finished(&odd).unwrap();
    assert_eq!(
        reg.el_download_validate_sha256(odd),
        Err(DownloadError::HashDecode)
    );
}

#[test]
fn scenario_full_download() {
    let content: Vec<u8> = (0u8..=255).cycle().take(1000).collect();
    let key = sha256_hex(&content);
    let mut reg = DownloadRegistry::new();
    reg.el_download(s("http://example/file.zip"), key.clone()).unwrap();
    reg.record_total_size(&key, content.len() as u64).unwrap();
    for chunk in content.chunks(256) {
        reg.append_chunk(&key, &chunk.to_vec()).unwrap();
    }
    reg.mark_finished(&key).unwrap();
    let info = reg.el_download_progress(key.clone()).unwrap();
    assert!(info.finished);
    assert_eq!(info.downloaded, content.len());
    assert_eq!(info.total_size, content.len() as u64);
    assert_eq!(info.err, None);
    assert_eq!(reg.el_download_validate_sha256(key.clone()), Ok(true));
    assert_eq!(reg.el_download_getfile(key).unwrap(), content);
}

#[test]
fn scenario_terminate_early() {
    // at the session level: create, then terminate before completion
    let mut handle = download_init(s("http://example/a"), s("abcd"));
    handle.download_start();
    handle.download_terminate();
    let info = handle.download_progress();
    assert!(!info.finished);
    assert_eq!(info.err.as_deref(), Some("Terminated"));
    // whatever prefix had arrived stays readable; here, nothing
    assert_eq!(handle.getfile().unwrap(), Vec::<u8>::new());
    // a second terminate is a harmless no-op
    handle.download_terminate();
    assert_eq!(handle.download_progress().err.as_deref(), Some("Terminated"));
}

#[test]
fn raw_bytes_of_partial_download() {
    let mut reg = DownloadRegistry::new();
    let key = s("abcd");
    reg.el_download(s("http://example/a"), key.clone()).unwrap();
    reg.append_chunk(&key, &vec![1u8, 2]).unwrap();
    assert_eq!(reg.el_download_getfile(key), Ok(vec![1u8, 2]));
}
