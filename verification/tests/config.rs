//! Credentials and paths.

use paloma::config::{
    credentials_help, credentials_path, credentials_path_in, data_dir, data_dir_in,
    environment_credentials, load_credentials, td_database_dir, td_database_dir_in, ConfigError,
    CredentialsFile,
};
use std::path::PathBuf;

#[test]
fn credentials_path_ends_correctly() {
    let path = PathBuf::from(credentials_path());
    assert!(
        path.ends_with("paloma/credentials.toml"),
        "unexpected credentials path: {}",
        path.display()
    );
}

#[test]
fn paths_follow_the_user_directories() {
    let config = dirs::config_dir().unwrap_or_default();
    assert_eq!(PathBuf::from(credentials_path()), config.join("paloma/credentials.toml"));
    let data = dirs::data_dir().unwrap_or_else(|| PathBuf::from(".local/share"));
    assert_eq!(PathBuf::from(data_dir()), data.join("paloma"));
    assert_eq!(PathBuf::from(td_database_dir()), data.join("paloma").join("td"));
}

#[test]
fn paths_below_given_directories() {
    assert_eq!(
        credentials_path_in(Some("/home/a/.config".to_string())),
        "/home/a/.config/paloma/credentials.toml"
    );
    assert_eq!(
        credentials_path_in(Some("/home/a/".to_string())),
        "/home/a/paloma/credentials.toml"
    );
    assert_eq!(credentials_path_in(Some(String::new())), "paloma/credentials.toml");
    assert_eq!(credentials_path_in(None), "paloma/credentials.toml");
    assert_eq!(data_dir_in(Some("/x".to_string())), "/x/paloma");
    assert_eq!(data_dir_in(None), ".local/share/paloma");
    assert_eq!(td_database_dir_in("/x/paloma"), "/x/paloma/td");
}

#[test]
fn joining_is_that_of_std() {
    for dir in ["", "/", "a", "a/", "/a/b", "/a/b/"] {
        let expected = PathBuf::from(dir).join("paloma/credentials.toml");
        let got = PathBuf::from(credentials_path_in(Some(dir.to_string())));
        assert_eq!(got, expected);
    }
}

#[test]
fn environment_comes_first() {
    let file = CredentialsFile::Parsed { api_id: 9, api_hash: "file".to_string() };
    let c = load_credentials(Some(" 42 "), Some("hash"), &file).unwrap();
    assert_eq!((c.api_id, c.api_hash.as_str()), (42, "hash"));
    let c = load_credentials(Some("+7"), Some("h"), &CredentialsFile::Absent).unwrap();
    assert_eq!(c.api_id, 7);
    let c = load_credentials(Some("-7"), Some("h"), &CredentialsFile::Absent).unwrap();
    assert_eq!(c.api_id, -7);
    let c = load_credentials(Some("0"), Some("abc"), &CredentialsFile::Absent).unwrap();
    assert_eq!((c.api_id, c.api_hash.as_str()), (0, "abc"));
    let c = load_credentials(Some("1"), Some(""), &file).unwrap();
    assert_eq!((c.api_id, c.api_hash.as_str()), (1, ""));
}

#[test]
fn incomplete_environment_falls_back_to_the_file() {
    for (id, hash) in [
        (None, Some("h")),
        (Some("1"), None),
        (Some("x1"), Some("h")),
        (Some(""), Some("h")),
        (Some("+"), Some("h")),
        (Some("2147483648"), Some("h")),
    ] {
        assert!(environment_credentials(id, hash).is_none());
        let file = CredentialsFile::Parsed { api_id: 9, api_hash: "file".to_string() };
        let c = load_credentials(id, hash, &file).unwrap();
        assert_eq!((c.api_id, c.api_hash.as_str()), (9, "file"));
    }
}

#[test]
fn each_config_error_has_its_input() {
    let missing = load_credentials(None, None, &CredentialsFile::Absent).unwrap_err();
    assert!(matches!(missing, ConfigError::Missing));
    assert_eq!(
        missing.message(),
        "no Telegram API credentials found; set PALOMA_API_ID/PALOMA_API_HASH or create the credentials file"
    );

    let zero = CredentialsFile::Parsed { api_id: 0, api_hash: "h".to_string() };
    let e = load_credentials(None, None, &zero).unwrap_err();
    assert!(matches!(e, ConfigError::Parse(_)));
    assert_eq!(e.message(), "invalid credentials: api_id is 0");

    let unreadable = CredentialsFile::Unreadable { error: "denied".to_string() };
    let e = load_credentials(None, None, &unreadable).unwrap_err();
    assert!(matches!(e, ConfigError::Io(_)));
    assert_eq!(e.message(), "failed to read credentials file: denied");

    let empty = CredentialsFile::Parsed { api_id: 1, api_hash: String::new() };
    let e = load_credentials(None, None, &empty).unwrap_err();
    assert_eq!(e.message(), "invalid credentials: api_hash is empty");
}

#[test]
fn quoted_id_gets_a_hint() {
    for contents in ["api_id = \"12\"", "x\napi_id=\"12\"\n"] {
        let file = CredentialsFile::Malformed {
            contents: contents.to_string(),
            error: "expected i32".to_string(),
        };
        let e = load_credentials(None, None, &file).unwrap_err();
        assert_eq!(
            e.message(),
            "invalid credentials: api_id must be a bare integer, not quoted. expected i32"
        );
    }
    let file = CredentialsFile::Malformed {
        contents: "api_id = x".to_string(),
        error: "expected i32".to_string(),
    };
    let e = load_credentials(None, None, &file).unwrap_err();
    assert_eq!(e.message(), "invalid credentials: expected i32");
}

#[test]
fn help_names_the_file() {
    let text = credentials_help("/p/credentials.toml");
    assert!(text.starts_with("Paloma needs a Telegram API ID and hash.\n\n1. Visit"));
    assert!(text.contains("into:\n/p/credentials.toml\n\nas:\napi_id = 123456\n"));
    assert!(text.ends_with("api_hash = \"your-hash-here\"\n\nThen restart Paloma."));
}
