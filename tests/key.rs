use indexer::error::SearchError;
use indexer::key::split_database_header_key;

#[test]
fn split_database_header_key_should_split_database_header_key_with_base_path_of_one_level_deep() {
    let input = "base_path/database_header_file_name.binpb";
    let (base_path, file_name) = split_database_header_key(input).unwrap();
    assert_eq!(base_path, "base_path");
    assert_eq!(file_name, "database_header_file_name.binpb");
}

#[test]
fn split_database_header_key_should_split_database_header_key_with_base_path_of_two_level_deep() {
    let input = "level-1/level-2/deep_database_header_file_name.binpb";
    let (base_path, file_name) = split_database_header_key(input).unwrap();
    assert_eq!(base_path, "level-1/level-2");
    assert_eq!(file_name, "deep_database_header_file_name.binpb");
}

#[test]
fn split_database_header_key_should_fail_if_key_does_not_include_slash() {
    let input = "database_header_file_name.binpb";
    assert!(split_database_header_key(input).is_err());
}

#[test]
fn split_database_header_key_should_fail_if_base_path_is_empty() {
    let input = "/database_header_file_name.binpb";
    assert!(split_database_header_key(input).is_err());
}

#[test]
fn split_database_header_key_should_fail_if_database_header_file_name_is_empty() {
    let input = "base_path/";
    assert!(split_database_header_key(input).is_err());
}

#[test]
fn split_short_key() {
    assert_eq!(split_database_header_key("base_path/file.ext"), Ok(("base_path", "file.ext")));
    assert_eq!(
        split_database_header_key("level-1/level-2/file.ext"),
        Ok(("level-1/level-2", "file.ext"))
    );
}

#[test]
fn split_failures_are_malformed_key() {
    assert_eq!(split_database_header_key("file.ext"), Err(SearchError::MalformedKey));
    assert_eq!(split_database_header_key("/file.ext"), Err(SearchError::MalformedKey));
    assert_eq!(split_database_header_key("base_path/"), Err(SearchError::MalformedKey));
    assert_eq!(split_database_header_key(""), Err(SearchError::MalformedKey));
    assert_eq!(split_database_header_key("/"), Err(SearchError::MalformedKey));
    assert_eq!(split_database_header_key("a/b/"), Err(SearchError::MalformedKey));
}

#[test]
fn split_keeps_leading_and_doubled_slashes_in_base_path() {
    assert_eq!(split_database_header_key("/root/file"), Ok(("/root", "file")));
    assert_eq!(split_database_header_key("a//file"), Ok(("a/", "file")));
    assert_eq!(split_database_header_key("a/b"), Ok(("a", "b")));
}

#[test]
fn split_handles_multibyte_characters() {
    assert_eq!(split_database_header_key("dossier/écran.bin"), Ok(("dossier", "écran.bin")));
    assert_eq!(split_database_header_key("日本/語"), Ok(("日本", "語")));
    assert_eq!(split_database_header_key("日本語"), Err(SearchError::MalformedKey));
}

#[test]
fn split_is_repeatable() {
    let key = "level-1/level-2/file.ext";
    assert_eq!(split_database_header_key(key), split_database_header_key(key));
    assert_eq!(split_database_header_key("file.ext"), split_database_header_key("file.ext"));
}
