use pack_pipeline::extract::working_dir_for;

#[test]
fn working_directory_is_a_sibling_named_like_the_archive() {
    assert_eq!(working_dir_for("/work/downloads/pack.zip"), Some("/work/downloads/pack".to_string()));
    assert_eq!(working_dir_for("downloads/My Pack.v2.zip"), Some("downloads/My Pack.v2".to_string()));
    assert_eq!(working_dir_for("pack.zip"), Some("pack".to_string()));
    assert_eq!(working_dir_for("/pack.zip"), Some("/pack".to_string()));
}

#[test]
fn archive_without_extension_keeps_its_name() {
    assert_eq!(working_dir_for("downloads/pack"), Some("downloads/pack".to_string()));
    assert_eq!(working_dir_for("downloads/.pack"), Some("downloads/.pack".to_string()));
}

#[test]
fn path_without_file_name_has_no_working_directory() {
    assert_eq!(working_dir_for("downloads/"), None);
    assert_eq!(working_dir_for(""), None);
    assert_eq!(working_dir_for("/"), None);
}
