use wabasen::paths::{encrypted_name_of, file_stem_of, temp_archive_name_of};

fn stem_str(path: &str) -> Option<String> {
    file_stem_of(path.as_bytes()).map(|v| String::from_utf8(v).unwrap())
}

#[test]
fn stem_strips_final_extension() {
    assert_eq!(stem_str("report.txt"), Some("report".to_string()));
    assert_eq!(stem_str("report.waba"), Some("report".to_string()));
}

#[test]
fn stem_takes_last_path_component() {
    assert_eq!(stem_str("a/b/c.tar.gz"), Some("c.tar".to_string()));
    assert_eq!(stem_str("/var/data/archive.waba"), Some("archive".to_string()));
}

#[test]
fn stem_keeps_hidden_file_name() {
    assert_eq!(stem_str(".bashrc"), Some(".bashrc".to_string()));
}

#[test]
fn stem_without_extension_is_whole_name() {
    assert_eq!(stem_str("folder"), Some("folder".to_string()));
    assert_eq!(stem_str("dir/"), Some("dir".to_string()));
}

#[test]
fn stem_of_trailing_dot_drops_it() {
    assert_eq!(stem_str("name."), Some("name".to_string()));
}

#[test]
fn pathological_paths_have_no_stem() {
    assert_eq!(stem_str(""), None);
    assert_eq!(stem_str("/"), None);
    assert_eq!(stem_str("."), None);
    assert_eq!(stem_str(".."), None);
    assert_eq!(stem_str("a/.."), None);
}

#[test]
fn artifact_names_follow_the_conventions() {
    assert_eq!(temp_archive_name_of(b"report"), b"report_temp".to_vec());
    assert_eq!(encrypted_name_of(b"report"), b"report.waba".to_vec());
}
