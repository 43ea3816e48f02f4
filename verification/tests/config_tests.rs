use local_shelf::config::{Config, ConfigError};
use local_shelf::file_discovery::{FileDiscovery, FileDiscoveryError};

#[test]
fn test_default_config() {
    let config = Config::default();
    assert_eq!(config.knowledge_base_path, "~/Knowledge Base");
}

#[test]
fn test_config_validation_empty_path() {
    let config = Config {
        knowledge_base_path: "".to_string(),
    };
    assert!(config.validate().is_err());
}

#[test]
fn test_config_validation_whitespace_path() {
    let config = Config {
        knowledge_base_path: "   ".to_string(),
    };
    assert!(config.validate().is_err());
}

#[test]
fn test_config_validation_ordinary_path() {
    let config = Config {
        knowledge_base_path: "/srv/notes".to_string(),
    };
    assert!(config.validate().is_ok());
}

#[test]
fn test_config_validation_error_variant() {
    let config = Config {
        knowledge_base_path: "".to_string(),
    };
    assert!(matches!(
        config.validate().unwrap_err(),
        ConfigError::ValidationError(_)
    ));
}

#[test]
fn config_test_expand_path_with_tilde() {
    let home = dirs::home_dir().unwrap();
    let expanded = Config::expand_path("~/Documents");
    assert_eq!(expanded, format!("{}/Documents", home.display()));
}

#[test]
fn config_test_expand_path_without_tilde() {
    let path = "/absolute/path";
    let expanded = Config::expand_path(path);
    assert_eq!(expanded, path);
}

#[test]
fn test_expand_path_with_given_home() {
    assert_eq!(Config::expand_path_with("~/Notes", "/home/u"), "/home/u/Notes");
    assert_eq!(Config::expand_path_with("/Notes", "/home/u"), "/Notes");
    assert_eq!(Config::expand_path_with("~", "/home/u"), "~");
}

#[test]
fn test_get_knowledge_base_path() {
    let config = Config {
        knowledge_base_path: "~/Test".to_string(),
    };

    let expanded = config.get_knowledge_base_path();
    let home = dirs::home_dir().unwrap();
    assert_eq!(expanded, format!("{}/Test", home.display()));
}

#[test]
fn test_config_file_path_shape() {
    match Config::config_file_path() {
        Ok(p) => assert!(p.ends_with("/local_shelf/config.yaml")),
        Err(e) => assert!(matches!(e, ConfigError::ValidationError(_))),
    }
}

#[test]
fn test_config_dir_shape() {
    match Config::config_dir() {
        Ok(p) => assert!(p.ends_with("/local_shelf")),
        Err(e) => assert!(matches!(e, ConfigError::ValidationError(_))),
    }
}

#[test]
fn test_legacy_config_dir_shape() {
    match Config::legacy_config_dir() {
        Ok(p) => assert!(p.ends_with("/local-shelf")),
        Err(e) => assert!(matches!(e, ConfigError::ValidationError(_))),
    }
}

#[test]
fn file_discovery_test_expand_path_with_tilde() {
    let result = FileDiscovery::expand_path("~/Downloads");
    assert!(result.is_ok());
    let expanded = result.unwrap();
    assert!(!expanded.starts_with('~'));
    assert!(expanded.ends_with("Downloads"));
}

#[test]
fn file_discovery_test_expand_path_without_tilde() {
    let absolute_path = "/usr/local/bin";
    let result = FileDiscovery::expand_path(absolute_path);
    assert!(result.is_ok());
    assert_eq!(result.unwrap(), absolute_path);
}

#[test]
fn test_error_handling_invalid_path() {
    // Path expansion should still work even if the path does not exist.
    let result = FileDiscovery::expand_path("~/nonexistent/../Downloads");
    assert!(result.is_ok());
}

#[test]
fn test_filter_markdown_files_mixed_extensions() {
    let files = vec![
        "document.md".to_string(),
        "README.MD".to_string(),
        "notes.Md".to_string(),
        "image.jpg".to_string(),
        "script.py".to_string(),
    ];

    let filtered = FileDiscovery::filter_markdown_files(files);
    assert_eq!(filtered.len(), 3);
    assert!(filtered.iter().all(|f| {
        let ext = f.rsplit('.').next().unwrap_or("");
        ext.to_lowercase() == "md"
    }));
}

#[test]
fn test_filter_markdown_files_no_markdown() {
    let files = vec![
        "image.jpg".to_string(),
        "document.pdf".to_string(),
        "script.py".to_string(),
    ];

    let filtered = FileDiscovery::filter_markdown_files(files);
    assert_eq!(filtered.len(), 0);
}

#[test]
fn test_filter_markdown_files_empty_list() {
    let files = vec![];
    let filtered = FileDiscovery::filter_markdown_files(files);
    assert_eq!(filtered.len(), 0);
}

#[test]
fn test_filter_markdown_files_leading_dot_only() {
    // A name that is nothing but an extension has no extension of its own.
    let files = vec![".md".to_string(), "pages/.md".to_string(), "a.md".to_string()];
    let filtered = FileDiscovery::filter_markdown_files(files);
    assert_eq!(filtered, vec!["a.md".to_string()]);
}

#[test]
fn test_filter_keeps_order_and_paths() {
    let files = vec![
        "/tmp/b.md".to_string(),
        "/tmp/a.txt".to_string(),
        "/tmp/a.md".to_string(),
    ];
    let filtered = FileDiscovery::filter_markdown_files(files);
    assert_eq!(filtered, vec!["/tmp/b.md".to_string(), "/tmp/a.md".to_string()]);
}

#[test]
fn test_discovery_error_variant() {
    let e = FileDiscoveryError::PathExpansionError("no home".to_string());
    assert!(matches!(e, FileDiscoveryError::PathExpansionError(_)));
}
