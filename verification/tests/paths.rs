use pack_pipeline::paths::{
    extension_of, file_name_of, join_path, parent_of, path_has_extension, stem_of,
};

#[test]
fn file_name_is_what_follows_the_last_slash() {
    assert_eq!(file_name_of("a/b/c.sm"), "c.sm");
    assert_eq!(file_name_of("c.sm"), "c.sm");
    assert_eq!(file_name_of("/c.sm"), "c.sm");
    assert_eq!(file_name_of("a/b/"), "");
    assert_eq!(file_name_of(""), "");
}

#[test]
fn parent_is_what_stands_before_the_last_slash() {
    assert_eq!(parent_of("a/b/c.sm"), "a/b");
    assert_eq!(parent_of("a/c.sm"), "a");
    assert_eq!(parent_of("/c.sm"), "/");
    assert_eq!(parent_of("c.sm"), "");
    assert_eq!(parent_of("/a/b"), "/a");
    assert_eq!(parent_of(""), "");
}

#[test]
fn stem_drops_the_last_extension() {
    assert_eq!(stem_of("chart.sm"), "chart");
    assert_eq!(stem_of("a.b.c"), "a.b");
    assert_eq!(stem_of("noext"), "noext");
    assert_eq!(stem_of(".hidden"), ".hidden");
    assert_eq!(stem_of(".hidden.zip"), ".hidden");
    assert_eq!(stem_of("trail."), "trail");
    assert_eq!(stem_of(""), "");
}

#[test]
fn extension_is_what_follows_the_last_dot() {
    assert_eq!(extension_of("chart.sm"), Some("sm".to_string()));
    assert_eq!(extension_of("a.b.c"), Some("c".to_string()));
    assert_eq!(extension_of("noext"), None);
    assert_eq!(extension_of(".sm"), None);
    assert_eq!(extension_of("trail."), Some(String::new()));
    assert_eq!(extension_of(""), None);
}

#[test]
fn join_puts_one_slash_between() {
    assert_eq!(join_path("a", "x"), "a/x");
    assert_eq!(join_path("a/", "x"), "a/x");
    assert_eq!(join_path("", "x"), "x");
    assert_eq!(join_path("/", "x"), "/x");
    assert_eq!(join_path("a/b", "c d.osu"), "a/b/c d.osu");
}

#[test]
fn extension_is_that_of_the_file_name() {
    assert!(path_has_extension("a/b.sm", "sm"));
    assert!(!path_has_extension("a.sm/b", "sm"));
    assert!(!path_has_extension("a/b.SM", "sm"));
    assert!(!path_has_extension("a/b.ssm", "sm"));
    assert!(!path_has_extension("a/.sm", "sm"));
    assert!(path_has_extension("b.tar.gz", "gz"));
}
