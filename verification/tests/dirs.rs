use semantic_scholar_mcp::database_dir;
use semantic_scholar_mcp::dirs::{database_in, DATABASE_NAME};
use semantic_scholar_mcp::error::Error;
use std::path::{Path, PathBuf};

#[test]
fn the_store_is_named_cache_db() {
    assert_eq!(DATABASE_NAME, "cache.db");
}

#[test]
fn the_store_lies_in_the_data_directory() {
    let path = database_in(Some(PathBuf::from("data").join("semantic-scholar-mcp"))).unwrap();
    assert_eq!(path, Path::new("data").join("semantic-scholar-mcp").join("cache.db"));
    assert_eq!(path.file_name().unwrap(), "cache.db");
    assert_eq!(path.parent().unwrap(), Path::new("data").join("semantic-scholar-mcp"));
}

#[test]
fn without_a_data_directory_there_is_no_store() {
    assert_eq!(database_in(None), Err(Error::NoProjectDirectory));
}

#[test]
fn database_dir_names_the_store_of_this_project() {
    match database_dir() {
        Ok(path) => {
            assert_eq!(path.file_name().unwrap(), "cache.db");
            assert!(path.parent().unwrap().components().count() > 0);
            assert_ne!(path, Path::new("cache.db"));
        }
        Err(error) => assert_eq!(error, Error::NoProjectDirectory),
    }
}
