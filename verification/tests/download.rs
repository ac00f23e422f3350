use pack_pipeline::download::{
    check_status, file_name_from_url, path_of_url, request_headers, DownloadTarget,
};
use pack_pipeline::error::PipelineError;

#[test]
fn file_name_is_the_last_path_segment_without_the_query() {
    assert_eq!(file_name_from_url("https://host/packs/foo.zip"), "foo.zip");
    assert_eq!(file_name_from_url("https://host/packs/foo.zip?token=abc"), "foo.zip");
    assert_eq!(file_name_from_url("https://host/packs/foo.zip?a=1?b=2"), "foo.zip");
    assert_eq!(file_name_from_url("https://host/a.zip?next=/b/c"), "a.zip");
    assert_eq!(file_name_from_url("foo.zip"), "foo.zip");
    assert_eq!(file_name_from_url("/packs/foo.zip"), "foo.zip");
    assert_eq!(file_name_from_url("https://host/packs/foo.zip#part"), "foo.zip");
    assert_eq!(file_name_from_url("https://host/packs/foo.zip?x=1#a/b"), "foo.zip");
    assert_eq!(file_name_from_url("https://host:8080/a/b/c.tar.gz"), "c.tar.gz");
}

#[test]
fn url_without_a_file_name_gets_the_default() {
    assert_eq!(file_name_from_url("https://host/packs/"), "pack.zip");
    assert_eq!(file_name_from_url("https://host/packs/?token=abc"), "pack.zip");
    assert_eq!(file_name_from_url(""), "pack.zip");
    assert_eq!(file_name_from_url("?x=1"), "pack.zip");
    assert_eq!(file_name_from_url("https://h.example"), "pack.zip");
    assert_eq!(file_name_from_url("https://h.example?x=1"), "pack.zip");
    assert_eq!(file_name_from_url("https://h.example#a/b.zip"), "pack.zip");
    assert_eq!(file_name_from_url("https://h.example/"), "pack.zip");
    assert_eq!(file_name_from_url("https://"), "pack.zip");
}

#[test]
fn path_of_a_url_leaves_scheme_host_query_and_fragment_out() {
    assert_eq!(path_of_url("https://host/packs/foo.zip?x=1#f"), "/packs/foo.zip");
    assert_eq!(path_of_url("https://host"), "");
    assert_eq!(path_of_url("https://host/"), "/");
    assert_eq!(path_of_url("packs/foo.zip?x"), "packs/foo.zip");
    assert_eq!(path_of_url("a:b/c"), "a:b/c");
}

#[test]
fn target_lies_in_the_downloads_directory() {
    let target = DownloadTarget::new("https://host/packs/foo.zip?x=1".to_string(), "/work");
    assert_eq!(target.url, "https://host/packs/foo.zip?x=1");
    assert_eq!(target.destination_dir, "/work/downloads");
    assert_eq!(target.file_name(), "foo.zip");
    assert_eq!(target.local_path(), "/work/downloads/foo.zip");
    let relative = DownloadTarget::new("https://host/".to_string(), "");
    assert_eq!(relative.destination_dir, "downloads");
    assert_eq!(relative.local_path(), "downloads/pack.zip");
}

#[test]
fn success_statuses_pass() {
    assert_eq!(check_status(200), Ok(()));
    assert_eq!(check_status(204), Ok(()));
    assert_eq!(check_status(299), Ok(()));
}

#[test]
fn other_statuses_fail_with_the_status() {
    for status in [0u16, 100, 199, 300, 301, 404, 500, 503, 999, u16::MAX] {
        assert_eq!(check_status(status), Err(PipelineError::HttpStatusError(status)));
    }
}

#[test]
fn download_sends_accept_and_origin() {
    assert_eq!(
        request_headers(),
        vec![
            ("Accept".to_string(), "*/*".to_string()),
            ("Origin".to_string(), "https://etternaonline.com".to_string()),
        ]
    );
}
