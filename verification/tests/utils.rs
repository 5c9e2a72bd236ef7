use rust_scanner::error::ParseError;
use rust_scanner::utils::check_output_path;
use std::path::Path;

#[test]
fn test_check_output_path_ok() {
    // The random named file should not exist in the current directory, so can be created
    let name = "peorighnpomqeirhgnqùoperhnùqpàierhngù";
    let path = check_output_path(name, !Path::new(name).exists());
    assert!(path.is_ok());
}

#[test]
fn test_check_output_path_err() {
    // The file lib.rs should exist in the current directory
    let name = "src/lib.rs";
    let path = check_output_path(name, !Path::new(name).exists());
    assert!(path.is_err());
}

#[test]
fn test_check_output_path_struct() {
    let str_path = "abcdefgh";
    match check_output_path(str_path, !Path::new(str_path).exists()) {
        Ok(path) => {
            assert_eq!(path, str_path);
        }
        _ => assert!(false),
    }
}

#[test]
fn taken_path_is_refused_as_existing() {
    assert_eq!(check_output_path("result.json", false), Err(ParseError::OutputExists));
    assert_eq!(check_output_path("", false), Err(ParseError::OutputExists));
}

#[test]
fn free_path_comes_back_unchanged() {
    assert_eq!(check_output_path("result.json", true), Ok(String::from("result.json")));
    assert_eq!(check_output_path("dir/é à.json", true), Ok(String::from("dir/é à.json")));
    assert_eq!(check_output_path("", true), Ok(String::new()));
}
