use pack_pipeline::error::PipelineError;
use pack_pipeline::url::{check_url, scheme_is_web};

#[test]
fn http_and_https_urls_are_accepted() {
    assert_eq!(check_url("https://example.com/packs/a.zip"), Ok(()));
    assert_eq!(check_url("http://example.com/a.zip?x=1"), Ok(()));
    assert_eq!(check_url("HTTPS://EXAMPLE.COM/a.zip"), Ok(()));
    assert_eq!(check_url("http://127.0.0.1:8080/"), Ok(()));
}

#[test]
fn other_schemes_are_refused() {
    assert_eq!(check_url("ftp://example.com/a.zip"), Err(PipelineError::UrlError));
    assert_eq!(check_url("file:///tmp/a.zip"), Err(PipelineError::UrlError));
    assert_eq!(check_url("mailto:someone@example.com"), Err(PipelineError::UrlError));
}

#[test]
fn text_that_is_no_absolute_url_is_refused() {
    assert_eq!(check_url(""), Err(PipelineError::UrlError));
    assert_eq!(check_url("not a url"), Err(PipelineError::UrlError));
    assert_eq!(check_url("/packs/a.zip"), Err(PipelineError::UrlError));
    assert_eq!(check_url("example.com/a.zip"), Err(PipelineError::UrlError));
    assert_eq!(check_url("https://"), Err(PipelineError::UrlError));
}

#[test]
fn web_schemes_are_http_and_https() {
    assert!(scheme_is_web("http"));
    assert!(scheme_is_web("https"));
    assert!(!scheme_is_web("HTTP"));
    assert!(!scheme_is_web("ftp"));
    assert!(!scheme_is_web("httpss"));
    assert!(!scheme_is_web(""));
}
