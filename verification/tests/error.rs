use pack_pipeline::error::PipelineError;

#[test]
fn every_error_says_its_kind_and_cause() {
    assert_eq!(PipelineError::UrlError.message(), "Invalid URL");
    assert_eq!(
        PipelineError::ConnectionError("timed out".to_string()).message(),
        "Connection error: timed out"
    );
    assert_eq!(PipelineError::HttpStatusError(404).message(), "HTTP error: 404");
    assert_eq!(PipelineError::HttpStatusError(0).message(), "HTTP error: 0");
    assert_eq!(PipelineError::HttpStatusError(u16::MAX).message(), "HTTP error: 65535");
    assert_eq!(
        PipelineError::IoError("downloads/a.zip".to_string(), "disk full".to_string()).message(),
        "I/O error at downloads/a.zip: disk full"
    );
    assert_eq!(
        PipelineError::ArchiveError("bad central directory".to_string()).message(),
        "Archive error: bad central directory"
    );
    assert_eq!(
        PipelineError::CodecError("no charts".to_string()).message(),
        "Codec error: no charts"
    );
    assert_eq!(
        PipelineError::ConfigError("cannot create songs".to_string()).message(),
        "Configuration error: cannot create songs"
    );
}

#[test]
fn errors_with_empty_causes_keep_their_kind() {
    assert_eq!(PipelineError::ConnectionError(String::new()).message(), "Connection error: ");
    assert_eq!(PipelineError::IoError(String::new(), String::new()).message(), "I/O error at : ");
}
